//! The options of a listing of documents.

use super::{
    optional_count, optional_text, set_count, set_flag, set_text, set_texts, with_count,
    with_flag, with_text, with_texts,
};
use crate::value::{RawValue, Tree};
use vstd::prelude::*;

verus! {

/// Every option is off unless it says otherwise.
#[derive(Debug, PartialEq, Eq)]
pub struct AllDocsOptions {
    /// Send each document along with its row.
    pub include_docs: bool,
    /// Send the conflicting revisions of each document.
    pub conflicts: bool,
    /// Send the payloads of the attachments.
    pub attachments: bool,
    /// List documents from this identifier on.
    pub startkey: Option<String>,
    /// List documents up to this identifier.
    pub endkey: Option<String>,
    /// Whether the document with the identifier `endkey` is listed. On by
    /// default.
    pub inclusive_end: bool,
    /// List at most this many documents.
    pub limit: Option<u32>,
    /// Pass over this many documents first.
    pub skip: Option<u32>,
    /// List in descending order.
    pub descending: bool,
    /// List the document with this identifier only.
    pub key: Option<String>,
    /// List the documents with these identifiers, in this order.
    pub keys: Vec<String>,
    /// Send the sequence the listing reflects.
    pub update_seq: bool,
}

impl Default for AllDocsOptions {
    fn default() -> (r: AllDocsOptions)
        ensures
            !r.include_docs,
            !r.conflicts,
            !r.attachments,
            r.startkey is None,
            r.endkey is None,
            r.inclusive_end,
            r.limit is None,
            r.skip is None,
            !r.descending,
            r.key is None,
            r.keys@.len() == 0,
            !r.update_seq,
            r.encoded() == Tree::Object(Seq::empty()),
    {
        AllDocsOptions {
            include_docs: false,
            conflicts: false,
            attachments: false,
            startkey: None,
            endkey: None,
            inclusive_end: true,
            limit: None,
            skip: None,
            descending: false,
            key: None,
            keys: Vec::new(),
            update_seq: false,
        }
    }
}

impl AllDocsOptions {
    /// `object` with the options that are set. `inclusive_end` is sent only
    /// where it is off.
    pub open spec fn added_to(&self, object: Tree) -> Tree {
        let a = with_flag(object, "include_docs"@, self.include_docs);
        let b = with_flag(a, "conflicts"@, self.conflicts);
        let c = with_flag(b, "attachments"@, self.attachments);
        let d = with_text(c, "startkey"@, optional_text(self.startkey));
        let e = with_text(d, "endkey"@, optional_text(self.endkey));
        let f = if self.inclusive_end {
            e
        } else {
            e.set("inclusive_end"@, Tree::Bool(false))
        };
        let g = with_count(f, "limit"@, optional_count(self.limit));
        let h = with_count(g, "skip"@, optional_count(self.skip));
        let i = with_flag(h, "descending"@, self.descending);
        let j = with_text(i, "key"@, optional_text(self.key));
        let k = with_texts(j, "keys"@, self.keys@);
        with_flag(k, "update_seq"@, self.update_seq)
    }

    /// The object the options are sent as.
    pub open spec fn encoded(&self) -> Tree {
        self.added_to(Tree::Object(Seq::empty()))
    }

    pub(crate) fn add_to(&self, object: &mut RawValue)
        requires
            old(object)@ is Object,
        ensures
            final(object)@ == self.added_to(old(object)@),
            final(object)@ is Object,
    {
        set_flag(object, "include_docs", self.include_docs);
        set_flag(object, "conflicts", self.conflicts);
        set_flag(object, "attachments", self.attachments);
        set_text(object, "startkey", &self.startkey);
        set_text(object, "endkey", &self.endkey);
        if !self.inclusive_end {
            object.set("inclusive_end", RawValue::Bool(false));
        }
        set_count(object, "limit", &self.limit);
        set_count(object, "skip", &self.skip);
        set_flag(object, "descending", self.descending);
        set_text(object, "key", &self.key);
        set_texts(object, "keys", &self.keys);
        set_flag(object, "update_seq", self.update_seq);
    }

    pub fn to_raw(&self) -> (r: RawValue)
        ensures
            r@ == self.encoded(),
    {
        let mut object = RawValue::object();
        self.add_to(&mut object);
        object
    }
}

} // verus!
