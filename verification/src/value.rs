//! The dynamic values that cross the boundary to the host.
//!
//! A [`RawValue`] is a self-contained tree: what the host holds as a loosely
//! typed value, written down once at the boundary. Contracts speak of its
//! view, a [`Tree`].

use crate::assoc::{has_key, lookup, position, store, upsert, view_of};
use vstd::prelude::*;

verus! {

/// A number of the host. Whole numbers are kept exactly; any other number is
/// kept as the bit pattern of its IEEE-754 double.
#[derive(Clone, Copy, Debug, PartialEq, Eq, Structural)]
pub enum Number {
    Integer(i64),
    Real(u64),
}

/// Whether the bit pattern of a double stands for a zero of either sign or
/// for a NaN.
pub open spec fn real_is_zero_or_nan(bits: int) -> bool {
    let magnitude = bits % 0x8000_0000_0000_0000;
    magnitude == 0 || magnitude > 0x7ff0_0000_0000_0000
}

/// The mathematical value of a [`Number`].
pub enum NumberView {
    Integer(int),
    /// The bit pattern, read as a natural number.
    Real(int),
}

impl NumberView {
    /// The host counts every number as true but zero and NaN.
    pub open spec fn truthy(self) -> bool {
        match self {
            NumberView::Integer(n) => n != 0,
            NumberView::Real(bits) => !real_is_zero_or_nan(bits),
        }
    }

    /// The number as it comes back from a JSON text: a zero of either sign
    /// comes back as the whole number zero, and every other number as
    /// itself.
    pub open spec fn settled(self) -> NumberView {
        match self {
            NumberView::Integer(_) => self,
            NumberView::Real(bits) => if bits % 0x8000_0000_0000_0000 == 0 {
                NumberView::Integer(0)
            } else {
                self
            },
        }
    }

    /// Whether this is a number with a JSON form: neither NaN nor infinite.
    pub open spec fn finite(self) -> bool {
        match self {
            NumberView::Integer(_) => true,
            NumberView::Real(bits) => bits % 0x8000_0000_0000_0000 < 0x7ff0_0000_0000_0000,
        }
    }
}

impl View for Number {
    type V = NumberView;

    open spec fn view(&self) -> NumberView {
        match self {
            Number::Integer(n) => NumberView::Integer(*n as int),
            Number::Real(bits) => NumberView::Real(*bits as int),
        }
    }
}

impl Number {
    pub fn settled(&self) -> (r: Number)
        ensures
            r@ == self@.settled(),
    {
        match self {
            Number::Integer(_) => *self,
            Number::Real(bits) => if *bits % 0x8000_0000_0000_0000u64 == 0 {
                Number::Integer(0)
            } else {
                *self
            },
        }
    }

    pub fn is_finite(&self) -> (r: bool)
        ensures
            r == self@.finite(),
    {
        match self {
            Number::Integer(_) => true,
            Number::Real(bits) => *bits % 0x8000_0000_0000_0000u64 < 0x7ff0_0000_0000_0000u64,
        }
    }

    pub fn is_truthy(&self) -> (r: bool)
        ensures
            r == self@.truthy(),
    {
        match self {
            Number::Integer(n) => *n != 0,
            Number::Real(bits) => {
                let magnitude: u64 = *bits % 0x8000_0000_0000_0000u64;
                !(magnitude == 0 || magnitude > 0x7ff0_0000_0000_0000u64)
            },
        }
    }
}

/// Where the bytes of a binary payload are.
#[derive(Debug, PartialEq, Eq)]
pub enum BlobContent {
    /// With the host, under this handle; they can only be read there.
    Host(u64),
    /// Here, in memory.
    Bytes(Vec<u8>),
}

pub enum BlobContentView {
    Host(int),
    Bytes(Seq<u8>),
}

impl View for BlobContent {
    type V = BlobContentView;

    open spec fn view(&self) -> BlobContentView {
        match self {
            BlobContent::Host(handle) => BlobContentView::Host(*handle as int),
            BlobContent::Bytes(bytes) => BlobContentView::Bytes(bytes@),
        }
    }
}

impl Clone for BlobContent {
    fn clone(&self) -> (r: BlobContent)
        ensures
            r@ == self@,
    {
        match self {
            BlobContent::Host(handle) => BlobContent::Host(*handle),
            BlobContent::Bytes(bytes) => BlobContent::Bytes(bytes.clone()),
        }
    }
}

/// A binary payload tagged with its content type.
#[derive(Debug, PartialEq, Eq)]
pub struct Blob {
    pub content_type: String,
    pub content: BlobContent,
}

pub struct BlobView {
    pub content_type: Seq<char>,
    pub content: BlobContentView,
}

impl View for Blob {
    type V = BlobView;

    open spec fn view(&self) -> BlobView {
        BlobView { content_type: self.content_type@, content: self.content@ }
    }
}

impl Clone for Blob {
    fn clone(&self) -> (r: Blob)
        ensures
            r@ == self@,
    {
        Blob { content_type: self.content_type.clone(), content: self.content.clone() }
    }
}

impl BlobContent {
    /// Whether two contents are the same: the same handle, or the same
    /// bytes.
    pub fn same(&self, other: &BlobContent) -> (r: bool)
        ensures
            r == (self@ == other@),
    {
        match (self, other) {
            (BlobContent::Host(a), BlobContent::Host(b)) => *a == *b,
            (BlobContent::Bytes(a), BlobContent::Bytes(b)) => {
                if a.len() != b.len() {
                    return false;
                }
                let mut i: usize = 0;
                while i < a.len()
                    invariant
                        i <= a.len(),
                        a.len() == b.len(),
                        forall|j: int| 0 <= j < i ==> a@[j] == b@[j],
                        self@ == BlobContentView::Bytes(a@),
                        other@ == BlobContentView::Bytes(b@),
                    decreases a.len() - i,
                {
                    if a[i] != b[i] {
                        assert(a@[i as int] != b@[i as int]);
                        return false;
                    }
                    i += 1;
                }
                assert(a@ =~= b@);
                true
            },
            _ => false,
        }
    }
}

impl Blob {
    /// Whether two payloads are the same in content type and content.
    pub fn same(&self, other: &Blob) -> (r: bool)
        ensures
            r == (self@ == other@),
    {
        self.content_type == other.content_type && self.content.same(&other.content)
    }

    /// A payload over bytes held in memory.
    pub fn from_bytes(content_type: &str, bytes: Vec<u8>) -> (r: Blob)
        ensures
            r@ == (BlobView { content_type: content_type@, content: BlobContentView::Bytes(bytes@) }),
    {
        Blob { content_type: content_type.to_owned(), content: BlobContent::Bytes(bytes) }
    }

    /// A payload that the host holds under `handle`.
    pub fn from_host(content_type: &str, handle: u64) -> (r: Blob)
        ensures
            r@ == (BlobView { content_type: content_type@, content: BlobContentView::Host(handle as int) }),
    {
        Blob { content_type: content_type.to_owned(), content: BlobContent::Host(handle) }
    }
}

/// The mathematical value of a [`RawValue`].
pub enum Tree {
    Undefined,
    Null,
    Bool(bool),
    Number(NumberView),
    Text(Seq<char>),
    Blob(BlobView),
    Array(Seq<Tree>),
    Object(Seq<(Seq<char>, Tree)>),
}

impl Tree {
    /// What the host counts as true: everything but `undefined`, `null`,
    /// `false`, zero, NaN and the empty text.
    pub open spec fn truthy(self) -> bool {
        match self {
            Tree::Undefined => false,
            Tree::Null => false,
            Tree::Bool(b) => b,
            Tree::Number(n) => n.truthy(),
            Tree::Text(s) => s.len() > 0,
            Tree::Blob(_) => true,
            Tree::Array(_) => true,
            Tree::Object(_) => true,
        }
    }

    /// The members of an object, in order; nothing for any other value.
    pub open spec fn entries(self) -> Seq<(Seq<char>, Tree)> {
        match self {
            Tree::Object(entries) => entries,
            _ => Seq::empty(),
        }
    }

    /// The elements of an array, in order; nothing for any other value.
    pub open spec fn items(self) -> Seq<Tree> {
        match self {
            Tree::Array(items) => items,
            _ => Seq::empty(),
        }
    }

    /// Whether this is an object with a member `key`.
    pub open spec fn has(self, key: Seq<char>) -> bool {
        has_key(self.entries(), key)
    }

    /// The member `key` of an object; `Undefined` where there is none or the
    /// value is no object.
    pub open spec fn get(self, key: Seq<char>) -> Tree {
        match lookup(self.entries(), key) {
            Some(value) => value,
            None => Tree::Undefined,
        }
    }

    /// An object with the members of another object stored over its own;
    /// unchanged where either is no object.
    pub open spec fn assign(self, source: Tree) -> Tree {
        match self {
            Tree::Object(entries) => Tree::Object(merged(entries, source.entries())),
            _ => self,
        }
    }

    /// An object with `value` stored under `key`; any other value unchanged.
    pub open spec fn set(self, key: Seq<char>, value: Tree) -> Tree {
        match self {
            Tree::Object(entries) => Tree::Object(upsert(entries, key, value)),
            _ => self,
        }
    }
}

/// The members whose value is not `Undefined`, in order.
pub open spec fn defined(members: Seq<(Seq<char>, Tree)>) -> Seq<(Seq<char>, Tree)>
    decreases members.len(),
{
    if members.len() == 0 {
        Seq::empty()
    } else if members.last().1 is Undefined {
        defined(members.drop_last())
    } else {
        defined(members.drop_last()).push(members.last())
    }
}

impl Tree {
    /// What is left of a value after it was written as JSON text and read
    /// back: `Undefined` and numbers without a JSON form become `Null`, a
    /// zero of either sign becomes the whole number zero, a binary payload
    /// becomes an object without members, an object loses the members whose
    /// value is `Undefined`, and all else stays, level by level.
    pub open spec fn canonical(self) -> Tree
        decreases self, 1int,
    {
        match self {
            Tree::Undefined => Tree::Null,
            Tree::Null => Tree::Null,
            Tree::Bool(b) => Tree::Bool(b),
            Tree::Number(n) => if n.finite() {
                Tree::Number(n.settled())
            } else {
                Tree::Null
            },
            Tree::Text(s) => Tree::Text(s),
            Tree::Blob(_) => Tree::Object(Seq::empty()),
            Tree::Array(items) => Tree::Array(
                Seq::new(
                    items.len(),
                    |i: int|
                        if 0 <= i < items.len() {
                            items[i].canonical()
                        } else {
                            Tree::Null
                        },
                ),
            ),
            Tree::Object(_) => Tree::Object(defined(self.marked())),
        }
    }

    /// The members of an object with each value in canonical form, but for
    /// the values that are `Undefined`, which stay so; nothing for any other
    /// value.
    pub open spec fn marked(self) -> Seq<(Seq<char>, Tree)>
        decreases self, 0int,
    {
        match self {
            Tree::Object(entries) => zipped(
                Seq::new(entries.len(), |i: int| entries[i].0),
                Seq::new(
                    entries.len(),
                    |i: int|
                        if 0 <= i < entries.len() && !(entries[i].1 is Undefined) {
                            entries[i].1.canonical()
                        } else {
                            Tree::Undefined
                        },
                ),
            ),
            _ => Seq::empty(),
        }
    }

    /// Whether a value is its own canonical form.
    pub open spec fn is_canonical(self) -> bool {
        self.canonical() == self
    }
}

/// The members of `target` after each member of `source` was stored over
/// them, in order.
pub open spec fn merged(target: Seq<(Seq<char>, Tree)>, source: Seq<(Seq<char>, Tree)>) -> Seq<
    (Seq<char>, Tree),
>
    decreases source.len(),
{
    if source.len() == 0 {
        target
    } else {
        upsert(merged(target, source.drop_last()), source.last().0, source.last().1)
    }
}

/// Keys and values, position by position, as one run of members.
pub open spec fn zipped(keys: Seq<Seq<char>>, values: Seq<Tree>) -> Seq<(Seq<char>, Tree)> {
    Seq::new(keys.len(), |i: int| (keys[i], values[i]))
}

/// A value as the host exchanges it.
#[derive(Debug, PartialEq, Eq)]
pub enum RawValue {
    Undefined,
    Null,
    Bool(bool),
    Number(Number),
    Text(String),
    Blob(Blob),
    Array(Vec<RawValue>),
    /// Members in insertion order. Where a key occurs twice, the first
    /// occurrence is the member.
    Object(Vec<(String, RawValue)>),
}

impl View for RawValue {
    type V = Tree;

    open spec fn view(&self) -> Tree
        decreases self,
    {
        match self {
            RawValue::Undefined => Tree::Undefined,
            RawValue::Null => Tree::Null,
            RawValue::Bool(b) => Tree::Bool(*b),
            RawValue::Number(n) => Tree::Number(n@),
            RawValue::Text(s) => Tree::Text(s@),
            RawValue::Blob(blob) => Tree::Blob(blob@),
            RawValue::Array(items) => Tree::Array(
                Seq::new(
                    items@.len(),
                    |i: int|
                        if 0 <= i < items@.len() {
                            items@[i]@
                        } else {
                            Tree::Undefined
                        },
                ),
            ),
            RawValue::Object(entries) => Tree::Object(
                zipped(
                    Seq::new(entries@.len(), |i: int| entries@[i].0@),
                    Seq::new(
                        entries@.len(),
                        |i: int|
                            if 0 <= i < entries@.len() {
                                entries@[i].1@
                            } else {
                                Tree::Undefined
                            },
                    ),
                ),
            ),
        }
    }
}

/// The views of a run of values, one for one.
pub open spec fn views(items: Seq<RawValue>) -> Seq<Tree> {
    Seq::new(items.len(), |i: int| items[i]@)
}

/// An array's view is the array of its elements' views.
pub proof fn lemma_array_view(items: Vec<RawValue>)
    ensures
        RawValue::Array(items)@ == Tree::Array(views(items@)),
{
    assert(RawValue::Array(items)@->Array_0 =~= views(items@));
}

/// An object's view is the object of its members' views.
pub proof fn lemma_object_view(entries: Vec<(String, RawValue)>)
    ensures
        RawValue::Object(entries)@ == Tree::Object(view_of(entries@)),
{
    assert(RawValue::Object(entries)@->Object_0 =~= view_of(entries@));
}

impl Clone for RawValue {
    fn clone(&self) -> (r: RawValue)
        ensures
            r@ == self@,
        decreases self,
    {
        match self {
            RawValue::Undefined => RawValue::Undefined,
            RawValue::Null => RawValue::Null,
            RawValue::Bool(b) => RawValue::Bool(*b),
            RawValue::Number(n) => RawValue::Number(*n),
            RawValue::Text(s) => RawValue::Text(s.clone()),
            RawValue::Blob(blob) => RawValue::Blob(blob.clone()),
            RawValue::Array(items) => {
                let mut out: Vec<RawValue> = Vec::new();
                let mut i: usize = 0;
                while i < items.len()
                    invariant
                        i <= items.len(),
                        out@.len() == i,
                        forall|j: int| 0 <= j < i ==> (#[trigger] out@[j])@ == items@[j]@,
                        *items == self->Array_0,
                        self is Array,
                    decreases items.len() - i,
                {
                    out.push(items[i].clone());
                    i += 1;
                }
                proof {
                    lemma_array_view(out);
                    lemma_array_view(*items);
                    assert(views(out@) =~= views(items@));
                }
                RawValue::Array(out)
            },
            RawValue::Object(entries) => {
                let mut out: Vec<(String, RawValue)> = Vec::new();
                let mut i: usize = 0;
                while i < entries.len()
                    invariant
                        i <= entries.len(),
                        out@.len() == i,
                        forall|j: int|
                            0 <= j < i ==> (#[trigger] out@[j]).0@ == entries@[j].0@ && out@[j].1@
                                == entries@[j].1@,
                        *entries == self->Object_0,
                        self is Object,
                    decreases entries.len() - i,
                {
                    out.push((entries[i].0.clone(), entries[i].1.clone()));
                    i += 1;
                }
                proof {
                    lemma_object_view(out);
                    lemma_object_view(*entries);
                    assert(view_of(out@) =~= view_of(entries@));
                }
                RawValue::Object(out)
            },
        }
    }
}

/// What `defined` keeps is what stood among the members with a value other
/// than `Undefined`.
pub proof fn lemma_defined_members(members: Seq<(Seq<char>, Tree)>)
    ensures
        defined(members).len() <= members.len(),
        forall|j: int|
            0 <= j < defined(members).len() ==> !((#[trigger] defined(members)[j]).1 is Undefined)
                && members.contains(defined(members)[j]),
    decreases members.len(),
{
    if members.len() > 0 {
        let earlier = members.drop_last();
        lemma_defined_members(earlier);
        let kept = defined(members);
        assert forall|j: int| 0 <= j < kept.len() implies !((#[trigger] kept[j]).1 is Undefined)
            && members.contains(kept[j]) by {
            if j < defined(earlier).len() {
                assert(kept[j] == defined(earlier)[j]);
                assert(earlier.contains(kept[j]));
                let i = choose|i: int| 0 <= i < earlier.len() && earlier[i] == kept[j];
                assert(members[i] == kept[j]);
            } else {
                assert(kept[j] == members[members.len() - 1]);
            }
        }
    }
}

/// Where no member has the value `Undefined`, `defined` keeps them all.
pub proof fn lemma_defined_all(members: Seq<(Seq<char>, Tree)>)
    requires
        forall|i: int| 0 <= i < members.len() ==> !((#[trigger] members[i]).1 is Undefined),
    ensures
        defined(members) == members,
    decreases members.len(),
{
    if members.len() > 0 {
        let earlier = members.drop_last();
        assert forall|i: int| 0 <= i < earlier.len() implies !((#[trigger] earlier[i]).1
            is Undefined) by {
            assert(earlier[i] == members[i]);
        }
        lemma_defined_all(earlier);
        assert(!(members[members.len() - 1].1 is Undefined));
        assert(earlier.push(members.last()) =~= members);
    } else {
        assert(defined(members) =~= members);
    }
}

/// A canonical form is its own canonical form: a value that came back from a
/// JSON text comes back from the next one unchanged.
pub proof fn lemma_canonical_idempotent(value: Tree)
    ensures
        value.canonical().is_canonical(),
        !(value.canonical() is Undefined),
    decreases value,
{
    match value {
        Tree::Array(items) => {
            let once = value.canonical()->Array_0;
            let twice = value.canonical().canonical()->Array_0;
            assert forall|i: int| 0 <= i < items.len() implies #[trigger] twice[i] == once[i] by {
                lemma_canonical_idempotent(items[i]);
            }
            assert(twice =~= once);
        },
        Tree::Object(entries) => {
            let marked = value.marked();
            let kept = defined(marked);
            lemma_defined_members(marked);
            let again = Tree::Object(kept).marked();
            assert forall|j: int| 0 <= j < kept.len() implies #[trigger] again[j] == kept[j] by {
                let i = choose|i: int| 0 <= i < marked.len() && marked[i] == kept[j];
                assert(!(entries[i].1 is Undefined));
                lemma_canonical_idempotent(entries[i].1);
            }
            assert(again =~= kept);
            lemma_defined_all(kept);
        },
        Tree::Blob(_) => {
            let empty = Tree::Object(Seq::empty());
            assert(empty.marked() =~= Seq::empty());
        },
        _ => {},
    }
}

impl RawValue {
    /// Whether two values are the same tree: the same kind, and the same
    /// content, with the elements of arrays and the members of objects in the
    /// same order.
    pub fn same(&self, other: &RawValue) -> (r: bool)
        ensures
            r == (self@ == other@),
        decreases self,
    {
        match (self, other) {
            (RawValue::Undefined, RawValue::Undefined) => true,
            (RawValue::Null, RawValue::Null) => true,
            (RawValue::Bool(a), RawValue::Bool(b)) => *a == *b,
            (RawValue::Number(a), RawValue::Number(b)) => *a == *b,
            (RawValue::Text(a), RawValue::Text(b)) => *a == *b,
            (RawValue::Blob(a), RawValue::Blob(b)) => a.same(b),
            (RawValue::Array(a), RawValue::Array(b)) => {
                proof {
                    lemma_array_view(*a);
                    lemma_array_view(*b);
                }
                if a.len() != b.len() {
                    assert(views(a@).len() != views(b@).len());
                    return false;
                }
                let mut i: usize = 0;
                while i < a.len()
                    invariant
                        i <= a.len(),
                        a.len() == b.len(),
                        forall|j: int| 0 <= j < i ==> a@[j]@ == b@[j]@,
                        *a == self->Array_0,
                        self is Array,
                        self@ == Tree::Array(views(a@)),
                        other@ == Tree::Array(views(b@)),
                    decreases a.len() - i,
                {
                    if !a[i].same(&b[i]) {
                        assert(views(a@)[i as int] != views(b@)[i as int]);
                        return false;
                    }
                    i += 1;
                }
                assert(views(a@) =~= views(b@));
                true
            },
            (RawValue::Object(a), RawValue::Object(b)) => {
                proof {
                    lemma_object_view(*a);
                    lemma_object_view(*b);
                }
                if a.len() != b.len() {
                    assert(view_of(a@).len() != view_of(b@).len());
                    return false;
                }
                let mut i: usize = 0;
                while i < a.len()
                    invariant
                        i <= a.len(),
                        a.len() == b.len(),
                        forall|j: int|
                            0 <= j < i ==> a@[j].0@ == b@[j].0@ && a@[j].1@ == b@[j].1@,
                        *a == self->Object_0,
                        self is Object,
                        self@ == Tree::Object(view_of(a@)),
                        other@ == Tree::Object(view_of(b@)),
                    decreases a.len() - i,
                {
                    if !(a[i].0 == b[i].0) || !a[i].1.same(&b[i].1) {
                        assert(view_of(a@)[i as int] != view_of(b@)[i as int]);
                        return false;
                    }
                    i += 1;
                }
                assert(view_of(a@) =~= view_of(b@));
                true
            },
            _ => false,
        }
    }
}

impl RawValue {
    /// A text value.
    pub fn text(s: &str) -> (r: RawValue)
        ensures
            r@ == Tree::Text(s@),
    {
        RawValue::Text(s.to_owned())
    }

    /// A whole number.
    pub fn integer(n: i64) -> (r: RawValue)
        ensures
            r@ == Tree::Number(NumberView::Integer(n as int)),
    {
        RawValue::Number(Number::Integer(n))
    }

    /// An object without members.
    pub fn object() -> (r: RawValue)
        ensures
            r@ == Tree::Object(Seq::empty()),
    {
        let entries: Vec<(String, RawValue)> = Vec::new();
        proof {
            lemma_object_view(entries);
            assert(view_of(entries@) =~= Seq::empty());
        }
        RawValue::Object(entries)
    }

    pub fn is_undefined(&self) -> (r: bool)
        ensures
            r == (self@ is Undefined),
    {
        match self {
            RawValue::Undefined => true,
            _ => false,
        }
    }

    /// Whether the host counts this value as true.
    pub fn is_truthy(&self) -> (r: bool)
        ensures
            r == self@.truthy(),
    {
        match self {
            RawValue::Undefined => false,
            RawValue::Null => false,
            RawValue::Bool(b) => *b,
            RawValue::Number(n) => n.is_truthy(),
            RawValue::Text(s) => s.as_str().unicode_len() > 0,
            RawValue::Blob(_) => true,
            RawValue::Array(_) => true,
            RawValue::Object(_) => true,
        }
    }

    /// The text of a text value.
    pub fn as_text(&self) -> (r: Option<&String>)
        ensures
            match r {
                Some(s) => self@ == Tree::Text(s@),
                None => !(self@ is Text),
            },
    {
        match self {
            RawValue::Text(s) => Some(s),
            _ => None,
        }
    }

    /// The elements of an array.
    pub fn as_array(&self) -> (r: Option<&Vec<RawValue>>)
        ensures
            match r {
                Some(items) => self@ == Tree::Array(views(items@)),
                None => !(self@ is Array),
            },
    {
        match self {
            RawValue::Array(items) => {
                proof {
                    lemma_array_view(*items);
                }
                Some(items)
            },
            _ => None,
        }
    }

    /// The members of an object.
    pub fn as_object(&self) -> (r: Option<&Vec<(String, RawValue)>>)
        ensures
            match r {
                Some(entries) => self@ == Tree::Object(view_of(entries@)),
                None => !(self@ is Object),
            },
    {
        match self {
            RawValue::Object(entries) => {
                proof {
                    lemma_object_view(*entries);
                }
                Some(entries)
            },
            _ => None,
        }
    }

    /// The member `key` of an object, if this is an object that has one.
    pub fn get(&self, key: &str) -> (r: Option<&RawValue>)
        ensures
            match r {
                Some(value) => self@.has(key@) && value@ == self@.get(key@),
                None => !self@.has(key@) && self@.get(key@) is Undefined,
            },
    {
        match self {
            RawValue::Object(entries) => {
                let owned = key.to_owned();
                proof {
                    lemma_object_view(*entries);
                }
                match position(entries, &owned) {
                    Some(i) => Some(&entries[i].1),
                    None => None,
                }
            },
            _ => {
                assert(self@.entries() =~= Seq::empty());
                None
            },
        }
    }

    /// Stores `value` under `key` where this is an object, overwriting the
    /// member of that name or adding one at the end. Any other value is left
    /// as it is, and the answer is `false`.
    pub fn set(&mut self, key: &str, value: RawValue) -> (stored: bool)
        ensures
            stored == (old(self)@ is Object),
            final(self)@ == old(self)@.set(key@, value@),
    {
        match self {
            RawValue::Object(entries) => {
                proof {
                    lemma_object_view(*entries);
                }
                store(entries, key.to_owned(), value);
                proof {
                    lemma_object_view(*entries);
                }
                true
            },
            _ => false,
        }
    }

    /// The value as it comes back from a JSON text written of it: see
    /// [`Tree::canonical`].
    pub fn canonical(&self) -> (r: RawValue)
        ensures
            r@ == self@.canonical(),
        decreases self,
    {
        match self {
            RawValue::Undefined => RawValue::Null,
            RawValue::Null => RawValue::Null,
            RawValue::Bool(b) => RawValue::Bool(*b),
            RawValue::Number(n) => if n.is_finite() {
                RawValue::Number(n.settled())
            } else {
                RawValue::Null
            },
            RawValue::Text(s) => RawValue::Text(s.clone()),
            RawValue::Blob(_) => RawValue::object(),
            RawValue::Array(items) => {
                let mut out: Vec<RawValue> = Vec::new();
                let mut i: usize = 0;
                while i < items.len()
                    invariant
                        i <= items.len(),
                        out@.len() == i,
                        forall|j: int|
                            0 <= j < i ==> (#[trigger] out@[j])@ == items@[j]@.canonical(),
                        *items == self->Array_0,
                        self is Array,
                    decreases items.len() - i,
                {
                    out.push(items[i].canonical());
                    i += 1;
                }
                proof {
                    lemma_array_view(out);
                    lemma_array_view(*items);
                    assert(self@ == Tree::Array(views(items@)));
                    assert(self@.canonical() is Array);
                    assert(views(out@) =~= self@.canonical()->Array_0);
                }
                let r = RawValue::Array(out);
                assert(r@ == self@.canonical());
                r
            },
            RawValue::Object(entries) => {
                let ghost members = view_of(entries@);
                let ghost kept = Tree::Object(members).marked();
                let mut out: Vec<(String, RawValue)> = Vec::new();
                let mut i: usize = 0;
                proof {
                    lemma_object_view(*entries);
                    assert(kept.take(0) =~= Seq::empty());
                    assert(view_of(out@) =~= Seq::empty());
                }
                while i < entries.len()
                    invariant
                        i <= entries.len(),
                        members == view_of(entries@),
                        kept.len() == members.len(),
                        forall|j: int|
                            0 <= j < members.len() ==> #[trigger] kept[j] == (
                                members[j].0,
                                if !(members[j].1 is Undefined) {
                                    members[j].1.canonical()
                                } else {
                                    Tree::Undefined
                                },
                            ),
                        view_of(out@) == defined(kept.take(i as int)),
                        *entries == self->Object_0,
                        self is Object,
                    decreases entries.len() - i,
                {
                    proof {
                        assert(kept.take(i + 1).drop_last() =~= kept.take(i as int));
                        assert(kept.take(i + 1).last() == kept[i as int]);
                    }
                    if !entries[i].1.is_undefined() {
                        let ghost before = view_of(out@);
                        out.push((entries[i].0.clone(), entries[i].1.canonical()));
                        assert(view_of(out@) =~= before.push(kept[i as int]));
                    }
                    i += 1;
                }
                proof {
                    assert(kept.take(i as int) =~= kept);
                    lemma_object_view(out);
                }
                let r = RawValue::Object(out);
                assert(r@ == self@.canonical());
                r
            },
        }
    }

    /// Stores each member of `source` in this object, in order, where both
    /// are objects; changes nothing where either is not.
    pub fn assign(&mut self, source: &RawValue)
        ensures
            final(self)@ == old(self)@.assign(source@),
    {
        match self {
            RawValue::Object(_) => {},
            _ => {
                return ;
            },
        }
        match source.as_object() {
            Some(entries) => {
                let ghost target = self@.entries();
                let ghost members = view_of(entries@);
                let mut i: usize = 0;
                assert(members.take(0) =~= Seq::empty());
                while i < entries.len()
                    invariant
                        i <= entries.len(),
                        members == view_of(entries@),
                        self@ == Tree::Object(merged(target, members.take(i as int))),
                    decreases entries.len() - i,
                {
                    proof {
                        assert(members.take(i + 1).drop_last() =~= members.take(i as int));
                        assert(members.take(i + 1).last() == members[i as int]);
                    }
                    self.set(entries[i].0.as_str(), entries[i].1.clone());
                    i += 1;
                }
                assert(members.take(i as int) =~= members);
            },
            None => {
                assert(source@.entries() =~= Seq::empty());
            },
        }
    }
}

} // verus!
