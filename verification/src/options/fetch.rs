//! The options of reading one document.

use super::{
    optional_text, set_flag, set_text, text_array, texts, with_flag, with_text,
};
use crate::value::{RawValue, Tree};
use vstd::prelude::*;

verus! {

/// Which open revisions of a document to read.
#[derive(Debug, PartialEq, Eq)]
pub enum OpenRevs {
    /// All of them.
    All,
    /// These.
    Revs(Vec<String>),
    /// What the host reads without being told.
    Default,
}

impl OpenRevs {
    pub fn is_default(&self) -> (r: bool)
        ensures
            r == (*self is Default),
    {
        if let OpenRevs::Default = self {
            true
        } else {
            false
        }
    }

    /// What is sent for the choice: the text `all`, or the array of the
    /// revisions; nothing for the default.
    pub open spec fn encoded(&self) -> Option<Tree> {
        match self {
            OpenRevs::All => Some(Tree::Text("all"@)),
            OpenRevs::Revs(revs) => Some(text_array(revs@)),
            OpenRevs::Default => None,
        }
    }

    pub fn to_raw(&self) -> (r: Option<RawValue>)
        ensures
            match r {
                Some(value) => self.encoded() == Some(value@),
                None => self.encoded() is None,
            },
    {
        match self {
            OpenRevs::All => Some(RawValue::text("all")),
            OpenRevs::Revs(revs) => Some(texts(revs)),
            OpenRevs::Default => None,
        }
    }
}

impl Default for OpenRevs {
    fn default() -> (r: OpenRevs)
        ensures
            r is Default,
    {
        OpenRevs::Default
    }
}

impl<T: Into<String>> From<Vec<T>> for OpenRevs {
    /// These revisions, each converted to a text, in their order.
    fn from(vec: Vec<T>) -> (r: OpenRevs)
        ensures
            r is Revs,
            r->Revs_0@.len() == vec@.len(),
            forall|i: int|
                0 <= i < vec@.len() ==> call_ensures(
                    <T as Into<String>>::into,
                    (vec@[i],),
                    #[trigger] r->Revs_0@[i],
                ),
    {
        let ghost given = vec@;
        let mut rest = vec;
        let mut turned: Vec<String> = Vec::new();
        while rest.len() > 0
            invariant
                turned@.len() + rest@.len() == given.len(),
                rest@ == given.take(rest@.len() as int),
                forall|i: int|
                    0 <= i < turned@.len() ==> call_ensures(
                        <T as Into<String>>::into,
                        (given[given.len() - 1 - i],),
                        #[trigger] turned@[i],
                    ),
            decreases rest@.len(),
        {
            let ghost last = rest@.len() - 1;
            match rest.pop() {
                Some(rev) => {
                    assert(rev == given[last]);
                    turned.push(rev.into());
                    assert(rest@ =~= given.take(rest@.len() as int));
                },
                None => {},
            }
        }
        let ghost backwards = turned@;
        let mut revs: Vec<String> = Vec::new();
        while turned.len() > 0
            invariant
                backwards.len() == given.len(),
                revs@.len() + turned@.len() == given.len(),
                turned@ == backwards.take(turned@.len() as int),
                forall|i: int|
                    0 <= i < backwards.len() ==> call_ensures(
                        <T as Into<String>>::into,
                        (given[given.len() - 1 - i],),
                        #[trigger] backwards[i],
                    ),
                forall|i: int|
                    0 <= i < revs@.len() ==> #[trigger] revs@[i] == backwards[backwards.len() - 1
                        - i],
            decreases turned@.len(),
        {
            let ghost last = turned@.len() - 1;
            match turned.pop() {
                Some(rev) => {
                    assert(rev == backwards[last]);
                    revs.push(rev);
                    assert(turned@ =~= backwards.take(turned@.len() as int));
                },
                None => {},
            }
        }
        assert forall|i: int| 0 <= i < given.len() implies call_ensures(
            <T as Into<String>>::into,
            (given[i],),
            #[trigger] revs@[i],
        ) by {
            assert(revs@[i] == backwards[backwards.len() - 1 - i]);
        }
        OpenRevs::Revs(revs)
    }
}

/// Nothing is claimed of the conversion through this specification: what it
/// gives is stated on `from` itself.
impl<T: Into<String>> vstd::std_specs::convert::FromSpecImpl<Vec<T>> for OpenRevs {
    open spec fn obeys_from_spec() -> bool {
        false
    }

    open spec fn from_spec(vec: Vec<T>) -> OpenRevs {
        OpenRevs::Default
    }
}

/// Every option is off unless it says otherwise.
#[derive(Debug, PartialEq, Eq)]
pub struct FetchOptions {
    /// Read this revision; the winning one where none is named.
    pub rev: Option<String>,
    /// Send the history of revisions along.
    pub revs: bool,
    /// Send the state of each revision along.
    pub revs_info: bool,
    pub open_revs: OpenRevs,
    /// Send the conflicting revisions along.
    pub conflicts: Option<Vec<String>>,
    /// Send the payloads of the attachments.
    pub attachments: bool,
    /// Send the payloads as binary values, not as encoded text.
    pub binary: bool,
    /// Read the latest leaf of the revision named.
    pub latest: bool,
}

impl Default for FetchOptions {
    fn default() -> (r: FetchOptions)
        ensures
            r.rev is None,
            !r.revs,
            !r.revs_info,
            r.open_revs is Default,
            r.conflicts is None,
            !r.attachments,
            !r.binary,
            !r.latest,
    {
        FetchOptions {
            rev: None,
            revs: false,
            revs_info: false,
            open_revs: OpenRevs::Default,
            conflicts: None,
            attachments: false,
            binary: false,
            latest: false,
        }
    }
}

impl FetchOptions {
    pub fn rev<T: Into<String>>(self, rev: T) -> (r: FetchOptions)
        ensures
            r.rev matches Some(given) && call_ensures(<T as Into<String>>::into, (rev,), given),
            r.revs == self.revs,
            r.revs_info == self.revs_info,
            r.open_revs == self.open_revs,
            r.conflicts == self.conflicts,
            r.attachments == self.attachments,
            r.binary == self.binary,
            r.latest == self.latest,
    {
        FetchOptions { rev: Some(rev.into()), ..self }
    }

    pub fn revs(self, revs: bool) -> (r: FetchOptions)
        ensures
            r == (FetchOptions { revs, ..self }),
    {
        FetchOptions { revs, ..self }
    }

    pub fn revs_info(self, revs_info: bool) -> (r: FetchOptions)
        ensures
            r == (FetchOptions { revs_info, ..self }),
    {
        FetchOptions { revs_info, ..self }
    }

    pub fn open_revs<T: Into<OpenRevs>>(self, open_revs: T) -> (r: FetchOptions)
        ensures
            call_ensures(<T as Into<OpenRevs>>::into, (open_revs,), r.open_revs),
            r.rev == self.rev,
            r.revs == self.revs,
            r.revs_info == self.revs_info,
            r.conflicts == self.conflicts,
            r.attachments == self.attachments,
            r.binary == self.binary,
            r.latest == self.latest,
    {
        FetchOptions { open_revs: open_revs.into(), ..self }
    }

    pub fn conflicts<T: Into<Vec<String>>>(self, conflicts: T) -> (r: FetchOptions)
        ensures
            r.conflicts matches Some(given) && call_ensures(
                <T as Into<Vec<String>>>::into,
                (conflicts,),
                given,
            ),
            r.rev == self.rev,
            r.revs == self.revs,
            r.revs_info == self.revs_info,
            r.open_revs == self.open_revs,
            r.attachments == self.attachments,
            r.binary == self.binary,
            r.latest == self.latest,
    {
        FetchOptions { conflicts: Some(conflicts.into()), ..self }
    }

    pub fn attachments(self, attachments: bool) -> (r: FetchOptions)
        ensures
            r == (FetchOptions { attachments, ..self }),
    {
        FetchOptions { attachments, ..self }
    }

    pub fn binary(self, binary: bool) -> (r: FetchOptions)
        ensures
            r == (FetchOptions { binary, ..self }),
    {
        FetchOptions { binary, ..self }
    }

    pub fn latest(self, latest: bool) -> (r: FetchOptions)
        ensures
            r == (FetchOptions { latest, ..self }),
    {
        FetchOptions { latest, ..self }
    }

    /// The object the options are sent as.
    pub open spec fn encoded(&self) -> Tree {
        let a = with_text(Tree::Object(Seq::empty()), "rev"@, optional_text(self.rev));
        let b = with_flag(a, "revs"@, self.revs);
        let c = with_flag(b, "revs_info"@, self.revs_info);
        let d = match self.open_revs.encoded() {
            Some(choice) => c.set("open_revs"@, choice),
            None => c,
        };
        let e = match self.conflicts {
            Some(conflicts) => d.set("conflicts"@, text_array(conflicts@)),
            None => d,
        };
        let f = with_flag(e, "attachments"@, self.attachments);
        let g = with_flag(f, "binary"@, self.binary);
        with_flag(g, "latest"@, self.latest)
    }

    pub fn to_raw(&self) -> (r: RawValue)
        ensures
            r@ == self.encoded(),
    {
        let mut object = RawValue::object();
        set_text(&mut object, "rev", &self.rev);
        set_flag(&mut object, "revs", self.revs);
        set_flag(&mut object, "revs_info", self.revs_info);
        match self.open_revs.to_raw() {
            Some(choice) => {
                object.set("open_revs", choice);
            },
            None => {},
        }
        match &self.conflicts {
            Some(conflicts) => {
                object.set("conflicts", texts(conflicts));
            },
            None => {},
        }
        set_flag(&mut object, "attachments", self.attachments);
        set_flag(&mut object, "binary", self.binary);
        set_flag(&mut object, "latest", self.latest);
        object
    }
}

} // verus!
