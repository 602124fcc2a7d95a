//! Selectors: the queries by which documents are picked.

use crate::assoc::view_of;
use crate::value::{lemma_object_view, RawValue, Tree};
use vstd::prelude::*;

verus! {

/// A selector. The only one that can be made is the one that picks every
/// document.
#[derive(Debug, PartialEq, Eq)]
pub struct Selector(Vec<(String, RawValue)>);

impl Selector {
    /// The object the selector is sent as.
    pub closed spec fn encoded(&self) -> Tree {
        Tree::Object(view_of(self.0@))
    }

    pub fn to_raw(&self) -> (r: RawValue)
        ensures
            r@ == self.encoded(),
    {
        let copy = RawValue::Object(clone_members(&self.0));
        proof {
            lemma_object_view(copy->Object_0);
        }
        copy
    }
}

fn clone_members(members: &Vec<(String, RawValue)>) -> (r: Vec<(String, RawValue)>)
    ensures
        view_of(r@) == view_of(members@),
{
    let mut out: Vec<(String, RawValue)> = Vec::new();
    let mut i: usize = 0;
    while i < members.len()
        invariant
            i <= members.len(),
            out@.len() == i,
            forall|j: int|
                0 <= j < i ==> (#[trigger] out@[j]).0@ == members@[j].0@ && out@[j].1@
                    == members@[j].1@,
        decreases members.len() - i,
    {
        out.push((members[i].0.clone(), members[i].1.clone()));
        i += 1;
    }
    assert(view_of(out@) =~= view_of(members@));
    out
}

impl Default for Selector {
    fn default() -> (r: Selector)
        ensures
            r.encoded() == Tree::Object(Seq::empty()),
    {
        let members: Vec<(String, RawValue)> = Vec::new();
        assert(view_of(members@) =~= Seq::empty());
        Selector(members)
    }
}

} // verus!
