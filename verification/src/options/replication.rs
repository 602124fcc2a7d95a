//! The options of a replication.

use super::changes::{
    optional_sequence, optional_value, set_parameters, set_selector, set_timeout, with_parameters,
    with_selector, with_timeout, Timeout,
};
use super::selector::Selector;
use super::{
    optional_count, optional_text, set_count, set_flag, set_text, set_texts, with_count,
    with_flag, with_text, with_texts,
};
use crate::events::SequenceID;
use crate::value::{RawValue, Tree};
use vstd::prelude::*;

verus! {

/// Every option is off unless it says otherwise.
#[derive(Debug, PartialEq, Eq)]
pub struct Replication {
    /// The filter function of a design document to pick the changes by.
    pub filter: Option<String>,
    /// Replicate these documents only.
    pub doc_ids: Vec<String>,
    /// What is passed on to the filter function.
    pub query_params: Option<RawValue>,
    /// The view to filter by, where `filter` is `_view`.
    pub view: Option<String>,
    /// The selector to filter by.
    pub selector: Option<Selector>,
    /// Start right after this place in the history.
    pub since: Option<SequenceID>,
    /// How often the server gives a sign of life on a connection kept open.
    pub heartbeat: Timeout,
    /// How long a request may take.
    pub timeout: Timeout,
    /// How many changes to process at a time.
    pub batch_size: Option<u32>,
    /// How many batches to hold at a time.
    pub batches_limit: Option<u32>,
}

impl Default for Replication {
    fn default() -> (r: Replication)
        ensures
            r.encoded() == Tree::Object(Seq::empty()),
            r.since is None,
            r.query_params is None,
    {
        Replication {
            filter: None,
            doc_ids: Vec::new(),
            query_params: None,
            view: None,
            selector: None,
            since: None,
            heartbeat: Timeout::Default,
            timeout: Timeout::Default,
            batch_size: None,
            batches_limit: None,
        }
    }
}

impl Replication {
    /// The object of the options that are always sent as they stand.
    pub open spec fn encoded(&self) -> Tree {
        let a = with_text(Tree::Object(Seq::empty()), "filter"@, optional_text(self.filter));
        let b = with_texts(a, "doc_ids"@, self.doc_ids@);
        let c = with_text(b, "view"@, optional_text(self.view));
        let d = with_selector(c, self.selector);
        let e = with_timeout(d, "heartbeat"@, self.heartbeat);
        let f = with_timeout(e, "timeout"@, self.timeout);
        let g = with_count(f, "batch_size"@, optional_count(self.batch_size));
        with_count(g, "batches_limit"@, optional_count(self.batches_limit))
    }

    /// What is sent to start a replication that stays open: the options, the
    /// parameters of the filter stored over them, `live`, and `retry` where
    /// the host is to try again after a failure.
    pub open spec fn request(&self, retry: bool) -> Tree {
        with_flag(
            with_flag(
                with_parameters(
                    self.encoded(),
                    optional_value(self.query_params),
                    optional_sequence(self.since),
                ),
                "live"@,
                true,
            ),
            "retry"@,
            retry,
        )
    }

    pub fn to_raw(&self) -> (r: RawValue)
        ensures
            r@ == self.encoded(),
            r@ is Object,
    {
        let mut object = RawValue::object();
        set_text(&mut object, "filter", &self.filter);
        set_texts(&mut object, "doc_ids", &self.doc_ids);
        set_text(&mut object, "view", &self.view);
        set_selector(&mut object, &self.selector);
        set_timeout(&mut object, "heartbeat", &self.heartbeat);
        set_timeout(&mut object, "timeout", &self.timeout);
        set_count(&mut object, "batch_size", &self.batch_size);
        set_count(&mut object, "batches_limit", &self.batches_limit);
        object
    }

    pub fn to_request(&self, retry: bool) -> (r: RawValue)
        ensures
            r@ == self.request(retry),
    {
        let mut object = self.to_raw();
        set_parameters(&mut object, &self.query_params, &self.since);
        set_flag(&mut object, "live", true);
        set_flag(&mut object, "retry", retry);
        object
    }
}

} // verus!
