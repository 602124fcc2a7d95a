//! The options of the feed of changes.

use super::selector::Selector;
use super::{
    optional_count, optional_text, set_count, set_flag, set_text, set_texts, with_count,
    with_flag, with_text, with_texts,
};
use crate::events::SequenceID;
use crate::value::{Number, RawValue, Tree};
use vstd::prelude::*;

verus! {

/// How long the host waits.
#[derive(Clone, Copy, Debug, PartialEq, Eq, Structural)]
pub enum Timeout {
    /// Without limit.
    Unlimited,
    /// As long as it does without being told.
    Default,
    /// For this many milliseconds.
    Duration(Number),
}

impl Timeout {
    pub fn is_default(&self) -> (r: bool)
        ensures
            r == (*self is Default),
    {
        match self {
            Timeout::Default => true,
            _ => false,
        }
    }

    /// What is sent for the choice: `false` for no limit, the milliseconds
    /// for a limit, nothing for the default.
    pub open spec fn encoded(self) -> Option<Tree> {
        match self {
            Timeout::Unlimited => Some(Tree::Bool(false)),
            Timeout::Default => None,
            Timeout::Duration(milliseconds) => Some(Tree::Number(milliseconds@)),
        }
    }

    pub fn to_raw(&self) -> (r: Option<RawValue>)
        ensures
            match r {
                Some(value) => self.encoded() == Some(value@),
                None => self.encoded() is None,
            },
    {
        match self {
            Timeout::Unlimited => Some(RawValue::Bool(false)),
            Timeout::Default => None,
            Timeout::Duration(milliseconds) => Some(RawValue::Number(*milliseconds)),
        }
    }
}

impl Default for Timeout {
    fn default() -> (r: Timeout)
        ensures
            r is Default,
    {
        Timeout::Default
    }
}

/// `object` with what is sent for a timeout under `key`, where anything is.
pub open spec fn with_timeout(object: Tree, key: Seq<char>, timeout: Timeout) -> Tree {
    match timeout.encoded() {
        Some(value) => object.set(key, value),
        None => object,
    }
}

pub(crate) fn set_timeout(object: &mut RawValue, key: &str, timeout: &Timeout)
    requires
        old(object)@ is Object,
    ensures
        final(object)@ == with_timeout(old(object)@, key@, *timeout),
        final(object)@ is Object,
{
    match timeout.to_raw() {
        Some(value) => {
            object.set(key, value);
        },
        None => {},
    }
}

/// `object` with what is sent for a selector, where there is one.
pub open spec fn with_selector(object: Tree, selector: Option<Selector>) -> Tree {
    match selector {
        Some(selector) => object.set("selector"@, selector.encoded()),
        None => object,
    }
}

pub(crate) fn set_selector(object: &mut RawValue, selector: &Option<Selector>)
    requires
        old(object)@ is Object,
    ensures
        final(object)@ == with_selector(old(object)@, *selector),
        final(object)@ is Object,
{
    match selector {
        Some(selector) => {
            object.set("selector", selector.to_raw());
        },
        None => {},
    }
}

/// The view of a sequence token that may be absent.
pub open spec fn optional_sequence(since: Option<SequenceID>) -> Option<Tree> {
    match since {
        Some(since) => Some(since@),
        None => None,
    }
}

/// The view of a value that may be absent.
pub open spec fn optional_value(value: Option<RawValue>) -> Option<Tree> {
    match value {
        Some(value) => Some(value@),
        None => None,
    }
}

/// `options` with what the application passes to the filter. Where it
/// passes something, the members of that are stored over the options, and
/// the place to start from is added where one is given; where it passes
/// nothing, the options stay as they are and no place to start from is
/// sent.
pub open spec fn with_parameters(options: Tree, query_params: Option<Tree>, since: Option<Tree>) -> Tree {
    match query_params {
        Some(query_params) => {
            let assigned = options.assign(query_params);
            match since {
                Some(since) => assigned.set("since"@, since),
                None => assigned,
            }
        },
        None => options,
    }
}

pub(crate) fn set_parameters(
    object: &mut RawValue,
    query_params: &Option<RawValue>,
    since: &Option<SequenceID>,
)
    requires
        old(object)@ is Object,
    ensures
        final(object)@ == with_parameters(
            old(object)@,
            optional_value(*query_params),
            optional_sequence(*since),
        ),
        final(object)@ is Object,
{
    match query_params {
        Some(query_params) => {
            object.assign(query_params);
            match since {
                Some(since) => {
                    object.set("since", since.0.clone());
                },
                None => {},
            }
        },
        None => {},
    }
}

/// Every option is off unless it says otherwise.
#[derive(Debug, PartialEq, Eq)]
pub struct Changes {
    /// Send the document along with each change.
    pub include_docs: bool,
    /// Send the conflicting revisions along.
    pub include_conflicts: bool,
    /// Send the payloads of the attachments along.
    pub include_attachments: bool,
    /// Send the changes in descending order.
    pub descending: bool,
    /// Start right after this place in the history.
    pub since: Option<SequenceID>,
    /// Send at most this many changes.
    pub limit: Option<u32>,
    /// How long a request may take.
    pub timeout: Timeout,
    /// How often the server gives a sign of life on a connection kept open.
    pub heartbeat: Timeout,
    /// The filter function of a design document to pick the changes by.
    pub filter: Option<String>,
    /// Send the changes of these documents only.
    pub doc_ids: Vec<String>,
    /// What is passed on to the filter function.
    pub query_params: Option<RawValue>,
    /// The view to filter by, where `filter` is `_view`.
    pub view: Option<String>,
    /// The selector to filter by.
    pub selector: Option<Selector>,
    /// How many changes to fetch at a time.
    pub batch_size: Option<u32>,
}

impl Default for Changes {
    fn default() -> (r: Changes)
        ensures
            r.encoded() == Tree::Object(Seq::empty()),
            r.since is None,
            r.query_params is None,
    {
        Changes {
            include_docs: false,
            include_conflicts: false,
            include_attachments: false,
            descending: false,
            since: None,
            limit: None,
            timeout: Timeout::Default,
            heartbeat: Timeout::Default,
            filter: None,
            doc_ids: Vec::new(),
            query_params: None,
            view: None,
            selector: None,
            batch_size: None,
        }
    }
}

impl Changes {
    /// The object of the options that are always sent as they stand.
    pub open spec fn encoded(&self) -> Tree {
        let a = with_flag(Tree::Object(Seq::empty()), "include_docs"@, self.include_docs);
        let b = with_flag(a, "include_conflicts"@, self.include_conflicts);
        let c = with_flag(b, "include_attachments"@, self.include_attachments);
        let d = with_flag(c, "descending"@, self.descending);
        let e = with_count(d, "limit"@, optional_count(self.limit));
        let f = with_timeout(e, "timeout"@, self.timeout);
        let g = with_timeout(f, "heartbeat"@, self.heartbeat);
        let h = with_text(g, "filter"@, optional_text(self.filter));
        let i = with_texts(h, "doc_ids"@, self.doc_ids@);
        let j = with_text(i, "view"@, optional_text(self.view));
        let k = with_selector(j, self.selector);
        with_count(k, "batch_size"@, optional_count(self.batch_size))
    }

    /// What is sent to open the feed: the options, the parameters of the
    /// filter stored over them, and `live` set where the feed stays open.
    pub open spec fn request(&self, live: bool) -> Tree {
        with_flag(
            with_parameters(
                self.encoded(),
                optional_value(self.query_params),
                optional_sequence(self.since),
            ),
            "live"@,
            live,
        )
    }

    pub fn to_raw(&self) -> (r: RawValue)
        ensures
            r@ == self.encoded(),
            r@ is Object,
    {
        let mut object = RawValue::object();
        set_flag(&mut object, "include_docs", self.include_docs);
        set_flag(&mut object, "include_conflicts", self.include_conflicts);
        set_flag(&mut object, "include_attachments", self.include_attachments);
        set_flag(&mut object, "descending", self.descending);
        set_count(&mut object, "limit", &self.limit);
        set_timeout(&mut object, "timeout", &self.timeout);
        set_timeout(&mut object, "heartbeat", &self.heartbeat);
        set_text(&mut object, "filter", &self.filter);
        set_texts(&mut object, "doc_ids", &self.doc_ids);
        set_text(&mut object, "view", &self.view);
        set_selector(&mut object, &self.selector);
        set_count(&mut object, "batch_size", &self.batch_size);
        object
    }

    pub fn to_request(&self, live: bool) -> (r: RawValue)
        ensures
            r@ == self.request(live),
    {
        let mut object = self.to_raw();
        set_parameters(&mut object, &self.query_params, &self.since);
        set_flag(&mut object, "live", live);
        object
    }
}

} // verus!
