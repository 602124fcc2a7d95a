//! The options of the requests to the host, and the object each set of
//! options is sent as: a member is sent only where it differs from what the
//! host assumes without it.

pub mod all_docs;
pub mod changes;
pub mod create;
pub mod fetch;
pub mod query;
pub mod replication;
pub mod selector;

use crate::value::{lemma_array_view, views, Number, NumberView, RawValue, Tree};
use vstd::prelude::*;

verus! {

/// `object` with `key` set to true where `on`, and unchanged where not.
pub open spec fn with_flag(object: Tree, key: Seq<char>, on: bool) -> Tree {
    if on {
        object.set(key, Tree::Bool(true))
    } else {
        object
    }
}

/// `object` with a text under `key` where there is one to send.
pub open spec fn with_text(object: Tree, key: Seq<char>, text: Option<Seq<char>>) -> Tree {
    match text {
        Some(text) => object.set(key, Tree::Text(text)),
        None => object,
    }
}

/// `object` with a whole number under `key` where there is one to send.
pub open spec fn with_count(object: Tree, key: Seq<char>, count: Option<int>) -> Tree {
    match count {
        Some(count) => object.set(key, Tree::Number(NumberView::Integer(count))),
        None => object,
    }
}

/// The array of the given texts.
pub open spec fn text_array(texts: Seq<String>) -> Tree {
    Tree::Array(Seq::new(texts.len(), |i: int| Tree::Text(texts[i]@)))
}

/// `object` with the array of `texts` under `key` where there are any.
pub open spec fn with_texts(object: Tree, key: Seq<char>, texts: Seq<String>) -> Tree {
    if texts.len() > 0 {
        object.set(key, text_array(texts))
    } else {
        object
    }
}

/// The view of a text that may be absent.
pub open spec fn optional_text(text: Option<String>) -> Option<Seq<char>> {
    match text {
        Some(text) => Some(text@),
        None => None,
    }
}

/// The value of a count that may be absent.
pub open spec fn optional_count(count: Option<u32>) -> Option<int> {
    match count {
        Some(count) => Some(count as int),
        None => None,
    }
}

pub(crate) fn set_flag(object: &mut RawValue, key: &str, on: bool)
    requires
        old(object)@ is Object,
    ensures
        final(object)@ == with_flag(old(object)@, key@, on),
        final(object)@ is Object,
{
    if on {
        object.set(key, RawValue::Bool(true));
    }
}

pub(crate) fn set_text(object: &mut RawValue, key: &str, text: &Option<String>)
    requires
        old(object)@ is Object,
    ensures
        final(object)@ == with_text(old(object)@, key@, optional_text(*text)),
        final(object)@ is Object,
{
    match text {
        Some(text) => {
            object.set(key, RawValue::Text(text.clone()));
        },
        None => {},
    }
}

pub(crate) fn set_count(object: &mut RawValue, key: &str, count: &Option<u32>)
    requires
        old(object)@ is Object,
    ensures
        final(object)@ == with_count(old(object)@, key@, optional_count(*count)),
        final(object)@ is Object,
{
    match count {
        Some(count) => {
            object.set(key, RawValue::Number(Number::Integer(*count as i64)));
        },
        None => {},
    }
}

/// The array of the given texts.
pub(crate) fn texts(items: &Vec<String>) -> (r: RawValue)
    ensures
        r@ == text_array(items@),
{
    let mut out: Vec<RawValue> = Vec::new();
    let mut i: usize = 0;
    while i < items.len()
        invariant
            i <= items.len(),
            out@.len() == i,
            forall|j: int| 0 <= j < i ==> (#[trigger] out@[j])@ == Tree::Text(items@[j]@),
        decreases items.len() - i,
    {
        out.push(RawValue::Text(items[i].clone()));
        i += 1;
    }
    proof {
        lemma_array_view(out);
        assert(views(out@) =~= text_array(items@)->Array_0);
    }
    RawValue::Array(out)
}

pub(crate) fn set_texts(object: &mut RawValue, key: &str, items: &Vec<String>)
    requires
        old(object)@ is Object,
    ensures
        final(object)@ == with_texts(old(object)@, key@, items@),
        final(object)@ is Object,
{
    if items.len() > 0 {
        object.set(key, texts(items));
    }
}

} // verus!
