//! Documents: the contract an application type fulfils to be stored, the
//! shape a document is written in, and the shape it is read back in.

use crate::assoc::{has_key, lemma_upsert_unique, store, unique_keys, upsert, view_of};
use crate::error::{DecodingFailure, EncodingFailure, EncodingFailureView, Error, ErrorView};
use crate::value::{lemma_object_view, views, Blob, BlobView, RawValue, Tree};
use vstd::prelude::*;

verus! {

/// An opaque token naming one version of a document. The host issues it and
/// gets it back unchanged; nothing here looks inside.
#[derive(Debug, PartialEq, Eq)]
pub struct Revision(pub RawValue);

impl View for Revision {
    type V = Tree;

    open spec fn view(&self) -> Tree {
        self.0@
    }
}

impl Clone for Revision {
    fn clone(&self) -> (r: Revision)
        ensures
            r@ == self@,
    {
        Revision(self.0.clone())
    }
}

impl From<RawValue> for Revision {
    fn from(value: RawValue) -> (r: Revision) {
        Revision(value)
    }
}

impl vstd::std_specs::convert::FromSpecImpl<RawValue> for Revision {
    open spec fn obeys_from_spec() -> bool {
        true
    }

    open spec fn from_spec(value: RawValue) -> Revision {
        Revision(value)
    }
}

impl<'a> From<&'a str> for Revision {
    /// The revision that the host writes as this text.
    fn from(s: &'a str) -> (r: Revision)
        ensures
            r@ == Tree::Text(s@),
    {
        Revision(RawValue::text(s))
    }
}

/// Nothing is claimed of the conversion through this specification: what it
/// gives is stated on `from` itself.
impl<'a> vstd::std_specs::convert::FromSpecImpl<&'a str> for Revision {
    open spec fn obeys_from_spec() -> bool {
        false
    }

    open spec fn from_spec(s: &'a str) -> Revision {
        Revision(RawValue::Null)
    }
}

impl Revision {
    /// Whether two tokens name the same revision.
    pub fn same(&self, other: &Revision) -> (r: bool)
        ensures
            r == (self@ == other@),
    {
        self.0.same(&other.0)
    }

    /// The text of a revision that the host wrote as a text.
    pub fn into_string(self) -> (r: Option<String>)
        ensures
            match r {
                Some(text) => self@ == Tree::Text(text@),
                None => !(self@ is Text),
            },
    {
        match self.0 {
            RawValue::Text(text) => Some(text),
            _ => None,
        }
    }
}

/// The views of a run of revisions, one for one.
pub open spec fn revision_views(revisions: Seq<Revision>) -> Seq<Tree> {
    Seq::new(revisions.len(), |i: int| revisions[i]@)
}

/// The view of a revision that may be absent.
pub open spec fn optional_revision(rev: Option<Revision>) -> Option<Tree> {
    match rev {
        Some(rev) => Some(rev@),
        None => None,
    }
}

/// A named binary payload of a document as the host reports it: with its
/// payload, or as a stub that only describes it.
#[derive(Debug, PartialEq, Eq)]
pub enum Attachment {
    Data { blob: Blob, digest: String },
    Stub { content_type: String, digest: String },
}

pub enum AttachmentView {
    Data { blob: BlobView, digest: Seq<char> },
    Stub { content_type: Seq<char>, digest: Seq<char> },
}

impl View for Attachment {
    type V = AttachmentView;

    open spec fn view(&self) -> AttachmentView {
        match self {
            Attachment::Data { blob, digest } => AttachmentView::Data {
                blob: blob@,
                digest: digest@,
            },
            Attachment::Stub { content_type, digest } => AttachmentView::Stub {
                content_type: content_type@,
                digest: digest@,
            },
        }
    }
}

impl Clone for Attachment {
    fn clone(&self) -> (r: Attachment)
        ensures
            r@ == self@,
    {
        match self {
            Attachment::Data { blob, digest } => Attachment::Data {
                blob: blob.clone(),
                digest: digest.clone(),
            },
            Attachment::Stub { content_type, digest } => Attachment::Stub {
                content_type: content_type.clone(),
                digest: digest.clone(),
            },
        }
    }
}

impl Attachment {
    pub fn is_stub(&self) -> (r: bool)
        ensures
            r == (self@ is Stub),
    {
        match self {
            Attachment::Data { .. } => false,
            Attachment::Stub { .. } => true,
        }
    }
}

/// What a type provides to be stored as a document. Its serialized body holds
/// the document's own fields only: the identifier, the revision and the
/// deletion marker are added when the document is written.
pub trait Document {
    /// The unique identifier of the document.
    fn id(&self) -> String;

    /// The revision this document was read at, if it was read.
    fn rev(&self) -> Option<&Revision>;

    /// The body, as a keyed object.
    fn serialize(&self) -> Result<RawValue, RawValue>;

    /// Binary attachments, by name. A document that says nothing else has
    /// none.
    fn attachments(&self) -> (r: Vec<(String, Blob)>)
        default_ensures
            r@ == Seq::<(String, Blob)>::empty(),
    {
        Vec::new()
    }

    /// Whether writing this document deletes it. A document that says
    /// nothing else is not deleted.
    fn deleted(&self) -> (r: bool)
        default_ensures
            !r,
    {
        false
    }
}

/// `body` stamped with the identifier and, where there is one, the revision.
pub open spec fn stamped(body: Tree, id: Seq<char>, rev: Option<Tree>) -> Tree {
    let with_id = body.set("_id"@, Tree::Text(id));
    match rev {
        Some(rev) => with_id.set("_rev"@, rev),
        None => with_id,
    }
}

/// The write shape of a deletion: the marker, the identifier and, where there
/// is one, the revision.
pub open spec fn tombstone(id: Seq<char>, rev: Option<Tree>) -> Tree {
    stamped(Tree::Object(seq![("_deleted"@, Tree::Bool(true))]), id, rev)
}

/// The write shape of one attachment.
pub open spec fn attachment_entry(blob: BlobView) -> Tree {
    Tree::Object(seq![("content_type"@, Tree::Text(blob.content_type)), ("data"@, Tree::Blob(blob))])
}

/// The members of the `_attachments` object: one per name, a later payload
/// of a name replacing an earlier one.
pub open spec fn attachment_table(attachments: Seq<(Seq<char>, BlobView)>) -> Seq<
    (Seq<char>, Tree),
>
    decreases attachments.len(),
{
    if attachments.len() == 0 {
        Seq::empty()
    } else {
        upsert(
            attachment_table(attachments.drop_last()),
            attachments.last().0,
            attachment_entry(attachments.last().1),
        )
    }
}

/// The write shape of a document that is not deleted, where its body is a
/// keyed object.
pub open spec fn encoded(
    body: Tree,
    attachments: Seq<(Seq<char>, BlobView)>,
    id: Seq<char>,
    rev: Option<Tree>,
) -> Option<Tree> {
    if body is Object {
        let carrying = if attachments.len() > 0 {
            body.set("_attachments"@, Tree::Object(attachment_table(attachments)))
        } else {
            body
        };
        Some(stamped(carrying, id, rev))
    } else {
        None
    }
}

/// Stamps a keyed object with the identifier and the revision.
fn stamp(object: &mut RawValue, id: &str, rev: Option<&Revision>)
    requires
        old(object)@ is Object,
    ensures
        final(object)@ == stamped(old(object)@, id@, optional_revision_ref(rev)),
        final(object)@ is Object,
{
    object.set("_id", RawValue::text(id));
    match rev {
        Some(rev) => {
            object.set("_rev", rev.0.clone());
        },
        None => {},
    }
}

/// The view of a borrowed revision that may be absent.
pub open spec fn optional_revision_ref(rev: Option<&Revision>) -> Option<Tree> {
    match rev {
        Some(rev) => Some(rev@),
        None => None,
    }
}

/// The write shape of a deletion.
pub fn encode_deleted(id: &str, rev: Option<&Revision>) -> (r: RawValue)
    ensures
        r@ == tombstone(id@, optional_revision_ref(rev)),
{
    let mut object = RawValue::object();
    object.set("_deleted", RawValue::Bool(true));
    assert(object@ == Tree::Object(seq![("_deleted"@, Tree::Bool(true))])) by {
        assert(upsert(Seq::<(Seq<char>, Tree)>::empty(), "_deleted"@, Tree::Bool(true)) =~= seq![
            ("_deleted"@, Tree::Bool(true)),
        ]);
    }
    stamp(&mut object, id, rev);
    object
}

/// The write shape of one attachment.
fn encode_attachment(blob: &Blob) -> (r: RawValue)
    ensures
        r@ == attachment_entry(blob@),
{
    let mut entries: Vec<(String, RawValue)> = Vec::new();
    entries.push(("content_type".to_owned(), RawValue::Text(blob.content_type.clone())));
    entries.push(("data".to_owned(), RawValue::Blob(blob.clone())));
    proof {
        lemma_object_view(entries);
        assert(view_of(entries@) =~= seq![
            ("content_type"@, Tree::Text(blob@.content_type)),
            ("data"@, Tree::Blob(blob@)),
        ]);
    }
    RawValue::Object(entries)
}

/// The write shape of a document that is not deleted: its body, with the
/// attachments under `_attachments` where there are any, stamped with the
/// identifier and the revision. A body that is no keyed object cannot be
/// written.
pub fn encode_live(
    body: RawValue,
    attachments: &Vec<(String, Blob)>,
    id: &str,
    rev: Option<&Revision>,
) -> (r: Result<RawValue, Error>)
    ensures
        match r {
            Ok(written) => encoded(body@, view_of(attachments@), id@, optional_revision_ref(rev))
                == Some(written@),
            Err(e) => !(body@ is Object) && e@ == ErrorView::Encoding(EncodingFailureView::Body),
        },
{
    let mut object = body;
    match &object {
        RawValue::Object(_) => {},
        _ => {
            return Err(Error::Encoding(EncodingFailure::Body));
        },
    }
    if attachments.len() > 0 {
        let mut table: Vec<(String, RawValue)> = Vec::new();
        let mut i: usize = 0;
        assert(view_of(attachments@).take(0) =~= Seq::empty());
        assert(view_of(table@) =~= Seq::empty());
        while i < attachments.len()
            invariant
                i <= attachments.len(),
                view_of(table@) == attachment_table(view_of(attachments@).take(i as int)),
            decreases attachments.len() - i,
        {
            let ghost named = view_of(attachments@);
            store(&mut table, attachments[i].0.clone(), encode_attachment(&attachments[i].1));
            proof {
                assert(named.take(i + 1).drop_last() =~= named.take(i as int));
                assert(named.take(i + 1).last() == named[i as int]);
            }
            i += 1;
        }
        proof {
            assert(view_of(attachments@).take(i as int) =~= view_of(attachments@));
            lemma_object_view(table);
        }
        object.set("_attachments", RawValue::Object(table));
    }
    stamp(&mut object, id, rev);
    Ok(object)
}

/// Whether a value is the write shape of some document: that of a deletion,
/// or that of a body with its attachments.
pub open spec fn is_write_shape(written: Tree) -> bool {
    ||| exists|id: Seq<char>, rev: Option<Tree>| written == #[trigger] tombstone(id, rev)
    ||| exists|
        body: Tree,
        attachments: Seq<(Seq<char>, BlobView)>,
        id: Seq<char>,
        rev: Option<Tree>,
    | #[trigger]
        encoded(body, attachments, id, rev) == Some(written)
}

/// Whatever is written is an object with a textual `_id`.
pub proof fn lemma_write_shape(written: Tree)
    requires
        is_write_shape(written),
    ensures
        written is Object,
        written.get("_id"@) is Text,
{
    if exists|id: Seq<char>, rev: Option<Tree>| written == #[trigger] tombstone(id, rev) {
        let (id, rev) = choose|id: Seq<char>, rev: Option<Tree>|
            written == #[trigger] tombstone(id, rev);
        lemma_stamped(Tree::Object(seq![("_deleted"@, Tree::Bool(true))]), id, rev);
    } else {
        let (body, attachments, id, rev) = choose|
            body: Tree,
            attachments: Seq<(Seq<char>, BlobView)>,
            id: Seq<char>,
            rev: Option<Tree>,
        | #[trigger]
            encoded(body, attachments, id, rev) == Some(written);
        let carrying = if attachments.len() > 0 {
            body.set("_attachments"@, Tree::Object(attachment_table(attachments)))
        } else {
            body
        };
        lemma_stamped(carrying, id, rev);
    }
}

/// The view of what encoding gave.
pub open spec fn outcome(r: Result<RawValue, Error>) -> Result<Tree, ErrorView> {
    match r {
        Ok(written) => Ok(written@),
        Err(e) => Err(e@),
    }
}

/// What writing a document that is not deleted comes to, given its body, its
/// attachments, its identifier and its revision: the write shape, or the
/// refusal of a body that is no keyed object.
pub open spec fn live_outcome(
    body: Tree,
    attachments: Seq<(Seq<char>, BlobView)>,
    id: Seq<char>,
    rev: Option<Tree>,
) -> Result<Tree, ErrorView> {
    match encoded(body, attachments, id, rev) {
        Some(written) => Ok(written),
        None => Err(ErrorView::Encoding(EncodingFailureView::Body)),
    }
}

/// Whether `result` is what writing `doc` as a deletion under `id` comes to:
/// the document is asked for its revision and nothing else, and is written
/// as the deletion of that identifier at that revision.
pub open spec fn deletion_written<D: Document + ?Sized>(
    doc: &D,
    id: Seq<char>,
    result: Result<Tree, ErrorView>,
) -> bool {
    exists|rev: Option<&Revision>|
        #![trigger call_ensures(D::rev, (doc,), rev)]
        call_ensures(D::rev, (doc,), rev) && result == Ok::<Tree, ErrorView>(
            tombstone(id, optional_revision_ref(rev)),
        )
}

/// Whether `result` is what writing this body with these attachments under
/// `id` comes to: the document is asked for its revision, and body and
/// attachments are written under that identifier at that revision.
pub open spec fn body_written<D: Document + ?Sized>(
    doc: &D,
    id: Seq<char>,
    attachments: Seq<(Seq<char>, BlobView)>,
    body: Tree,
    result: Result<Tree, ErrorView>,
) -> bool {
    exists|rev: Option<&Revision>|
        #![trigger call_ensures(D::rev, (doc,), rev)]
        call_ensures(D::rev, (doc,), rev) && result == live_outcome(
            body,
            attachments,
            id,
            optional_revision_ref(rev),
        )
}

/// Whether `result` is what writing `doc`, which is not deleted, under `id`
/// comes to: the document is asked for its attachments and its body. Where
/// the body fails, the failure is the result, and where it does not, the
/// body is written with the attachments.
pub open spec fn live_written<D: Document + ?Sized>(
    doc: &D,
    id: Seq<char>,
    result: Result<Tree, ErrorView>,
) -> bool {
    exists|attachments: Vec<(String, Blob)>, body: Result<RawValue, RawValue>|
        #![trigger call_ensures(D::attachments, (doc,), attachments), call_ensures(D::serialize, (doc,), body)]
        call_ensures(D::attachments, (doc,), attachments) && call_ensures(
            D::serialize,
            (doc,),
            body,
        ) && match body {
            Ok(body) => body_written(doc, id, view_of(attachments@), body@, result),
            Err(raised) => result == Err::<Tree, ErrorView>(
                ErrorView::Encoding(EncodingFailureView::Serializer(raised@)),
            ),
        }
}

/// Whether `result` is what writing `doc` comes to, for answers that `doc`
/// may give. The document is asked for its identifier and whether it is
/// deleted. A deleted document is written as a deletion, whatever else it
/// holds and without being asked for its body; any other is written as its
/// body with its attachments.
pub open spec fn written_for<D: Document + ?Sized>(
    doc: &D,
    result: Result<Tree, ErrorView>,
) -> bool {
    exists|id: String, deleted: bool|
        #![trigger call_ensures(D::id, (doc,), id), call_ensures(D::deleted, (doc,), deleted)]
        call_ensures(D::id, (doc,), id) && call_ensures(D::deleted, (doc,), deleted) && if deleted {
            deletion_written(doc, id@, result)
        } else {
            live_written(doc, id@, result)
        }
}

/// What is written for a document is a write shape, and what fails is the
/// encoding.
pub proof fn lemma_written_for<D: Document + ?Sized>(doc: &D, result: Result<Tree, ErrorView>)
    requires
        written_for(doc, result),
    ensures
        match result {
            Ok(written) => is_write_shape(written),
            Err(e) => e is Encoding,
        },
{
}

/// What would be written for `doc`. A deleted document is written as a
/// deletion whatever else it holds, and without asking for its body; any
/// other is written as its body with its attachments. What the document
/// answers decides the result, as [`written_for`] says.
pub fn serialize<D: Document + ?Sized>(doc: &D) -> (r: Result<RawValue, Error>)
    ensures
        written_for(doc, outcome(r)),
        match r {
            Ok(written) => is_write_shape(written@),
            Err(e) => e@ is Encoding,
        },
{
    let id = doc.id();
    let deleted = doc.deleted();
    if deleted {
        let rev = doc.rev();
        let written = encode_deleted(id.as_str(), rev);
        let r = Ok(written);
        assert(call_ensures(D::id, (doc,), id) && call_ensures(D::deleted, (doc,), deleted));
        assert(call_ensures(D::rev, (doc,), rev));
        assert(written_for(doc, outcome(r)));
        r
    } else {
        let attachments = doc.attachments();
        let answered = doc.serialize();
        let ghost body = answered;
        assert(call_ensures(D::id, (doc,), id) && call_ensures(D::deleted, (doc,), deleted));
        assert(call_ensures(D::attachments, (doc,), attachments) && call_ensures(
            D::serialize,
            (doc,),
            body,
        ));
        match answered {
            Ok(body) => {
                let rev = doc.rev();
                let r = encode_live(body, &attachments, id.as_str(), rev);
                assert(call_ensures(D::rev, (doc,), rev));
                assert(outcome(r) == live_outcome(
                    body@,
                    view_of(attachments@),
                    id@,
                    optional_revision_ref(rev),
                ));
                assert(written_for(doc, outcome(r)));
                r
            },
            Err(raised) => {
                let r = Err(Error::Encoding(EncodingFailure::Serializer(raised)));
                assert(written_for(doc, outcome(r)));
                r
            },
        }
    }
}

/// A document as read from the host.
#[derive(Debug, PartialEq, Eq)]
pub struct SerializedDocument {
    pub id: String,
    pub rev: Option<Revision>,
    /// Revisions that stand unreconciled beside the current one.
    pub conflicts: Vec<Revision>,
    /// Attachments by name, in the order the host listed them.
    pub attachments: Vec<(String, Attachment)>,
    pub deleted: bool,
    /// The whole of what the host sent.
    pub data: RawValue,
}

pub struct SerializedDocumentView {
    pub id: Seq<char>,
    pub rev: Option<Tree>,
    pub conflicts: Seq<Tree>,
    pub attachments: Seq<(Seq<char>, AttachmentView)>,
    pub deleted: bool,
    pub data: Tree,
}

impl SerializedDocumentView {
    /// No two attachments have the same name.
    pub open spec fn well_formed(self) -> bool {
        unique_keys(self.attachments)
    }
}

impl View for SerializedDocument {
    type V = SerializedDocumentView;

    open spec fn view(&self) -> SerializedDocumentView {
        SerializedDocumentView {
            id: self.id@,
            rev: optional_revision(self.rev),
            conflicts: revision_views(self.conflicts@),
            attachments: view_of(self.attachments@),
            deleted: self.deleted,
            data: self.data@,
        }
    }
}

/// The view of a document that may be absent.
pub open spec fn optional_document(doc: Option<SerializedDocument>) -> Option<
    SerializedDocumentView,
> {
    match doc {
        Some(doc) => Some(doc@),
        None => None,
    }
}

/// A value that is there: anything but `Undefined`.
pub open spec fn present(value: Tree) -> Option<Tree> {
    if value is Undefined {
        None
    } else {
        Some(value)
    }
}

/// The conflicting revisions that a `_conflicts` member lists: the elements
/// of an array, and nothing for a value that is no array or that the host
/// counts as false.
pub open spec fn decoded_conflicts(listed: Tree) -> Seq<Tree> {
    if listed.truthy() {
        listed.items()
    } else {
        Seq::empty()
    }
}

/// The attachment that one member of `_attachments` describes, if it
/// describes one. Without a digest that is a text and not empty there is no
/// attachment. With a `stub` flag that the host counts as true it is a stub,
/// provided its content type is a text and not empty; without the flag it
/// carries its payload, provided `data` holds one.
pub open spec fn admitted(entry: Tree) -> Option<AttachmentView> {
    match entry.get("digest"@) {
        Tree::Text(digest) => if digest.len() == 0 {
            None
        } else if entry.get("stub"@).truthy() {
            match entry.get("content_type"@) {
                Tree::Text(content_type) => if content_type.len() == 0 {
                    None
                } else {
                    Some(AttachmentView::Stub { content_type, digest })
                },
                _ => None,
            }
        } else {
            match entry.get("data"@) {
                Tree::Blob(blob) => Some(AttachmentView::Data { blob, digest }),
                _ => None,
            }
        },
        _ => None,
    }
}

/// The attachments that the members of `_attachments` describe, by name and
/// in order; a member that describes none is passed over.
pub open spec fn decoded_attachments(members: Seq<(Seq<char>, Tree)>) -> Seq<
    (Seq<char>, AttachmentView),
>
    decreases members.len(),
{
    if members.len() == 0 {
        Seq::empty()
    } else {
        let earlier = decoded_attachments(members.drop_last());
        match admitted(members.last().1) {
            Some(attachment) => upsert(earlier, members.last().0, attachment),
            None => earlier,
        }
    }
}

/// The document that a read payload describes, where it describes one: it
/// does where its `_id` is a text.
pub open spec fn decoded_document(raw: Tree) -> Option<SerializedDocumentView> {
    match raw.get("_id"@) {
        Tree::Text(id) => Some(
            SerializedDocumentView {
                id,
                rev: present(raw.get("_rev"@)),
                conflicts: decoded_conflicts(raw.get("_conflicts"@)),
                attachments: decoded_attachments(raw.get("_attachments"@).entries()),
                deleted: false,
                data: raw,
            },
        ),
        _ => None,
    }
}

/// The view of a result of decoding.
pub open spec fn optional_attachment(attachment: Option<Attachment>) -> Option<AttachmentView> {
    match attachment {
        Some(attachment) => Some(attachment@),
        None => None,
    }
}

fn decode_conflicts(listed: &RawValue) -> (r: Vec<Revision>)
    ensures
        revision_views(r@) == decoded_conflicts(listed@),
{
    let mut out: Vec<Revision> = Vec::new();
    if listed.is_truthy() {
        match listed.as_array() {
            Some(items) => {
                let mut i: usize = 0;
                while i < items.len()
                    invariant
                        i <= items.len(),
                        out@.len() == i,
                        forall|j: int| 0 <= j < i ==> (#[trigger] out@[j])@ == items@[j]@,
                    decreases items.len() - i,
                {
                    out.push(Revision(items[i].clone()));
                    i += 1;
                }
                assert(revision_views(out@) =~= views(items@));
            },
            None => {
                assert(revision_views(out@) =~= Seq::empty());
            },
        }
    } else {
        assert(revision_views(out@) =~= Seq::empty());
    }
    out
}

fn decode_attachment(entry: &RawValue) -> (r: Option<Attachment>)
    ensures
        optional_attachment(r) == admitted(entry@),
{
    let digest = match entry.get("digest") {
        Some(value) => match value.as_text() {
            Some(text) => text,
            None => {
                return None;
            },
        },
        None => {
            return None;
        },
    };
    if digest.as_str().unicode_len() == 0 {
        return None;
    }
    let stub = match entry.get("stub") {
        Some(flag) => flag.is_truthy(),
        None => false,
    };
    if stub {
        match entry.get("content_type") {
            Some(value) => match value.as_text() {
                Some(content_type) => if content_type.as_str().unicode_len() == 0 {
                    None
                } else {
                    Some(
                        Attachment::Stub {
                            content_type: content_type.clone(),
                            digest: digest.clone(),
                        },
                    )
                },
                None => None,
            },
            None => None,
        }
    } else {
        match entry.get("data") {
            Some(RawValue::Blob(blob)) => Some(
                Attachment::Data { blob: blob.clone(), digest: digest.clone() },
            ),
            _ => None,
        }
    }
}

fn decode_attachments(table: &RawValue) -> (r: Vec<(String, Attachment)>)
    ensures
        view_of(r@) == decoded_attachments(table@.entries()),
{
    let mut out: Vec<(String, Attachment)> = Vec::new();
    assert(view_of(out@) =~= Seq::empty());
    match table.as_object() {
        Some(entries) => {
            let ghost members = view_of(entries@);
            let mut i: usize = 0;
            assert(members.take(0) =~= Seq::empty());
            while i < entries.len()
                invariant
                    i <= entries.len(),
                    members == view_of(entries@),
                    view_of(out@) == decoded_attachments(members.take(i as int)),
                decreases entries.len() - i,
            {
                proof {
                    assert(members.take(i + 1).drop_last() =~= members.take(i as int));
                    assert(members.take(i + 1).last() == members[i as int]);
                }
                match decode_attachment(&entries[i].1) {
                    Some(attachment) => {
                        store(&mut out, entries[i].0.clone(), attachment);
                    },
                    None => {},
                }
                i += 1;
            }
            assert(members.take(i as int) =~= members);
        },
        None => {
            assert(table@.entries() =~= Seq::empty());
        },
    }
    out
}

impl SerializedDocument {
    /// Reads a document from a payload of the host. The payload is one
    /// exactly where its `_id` is a text; what else it holds is read as far
    /// as it has the expected shape, and is otherwise passed over.
    pub fn try_from(data: RawValue) -> (r: Result<SerializedDocument, Error>)
        ensures
            match r {
                Ok(doc) => decoded_document(data@) == Some(doc@) && doc@.well_formed(),
                Err(e) => decoded_document(data@) is None && e@ == ErrorView::Decoding(
                    DecodingFailure::DocumentId,
                ),
            },
    {
        proof {
            lemma_attachment_names_unique(data@.get("_attachments"@).entries());
        }
        let id = match data.get("_id") {
            Some(RawValue::Text(id)) => id.clone(),
            _ => {
                return Err(Error::Decoding(DecodingFailure::DocumentId));
            },
        };
        let rev = match data.get("_rev") {
            Some(value) => if value.is_undefined() {
                None
            } else {
                Some(Revision(value.clone()))
            },
            None => None,
        };
        let conflicts = match data.get("_conflicts") {
            Some(listed) => decode_conflicts(listed),
            None => decode_conflicts(&RawValue::Undefined),
        };
        let attachments = match data.get("_attachments") {
            Some(table) => decode_attachments(table),
            None => decode_attachments(&RawValue::Undefined),
        };
        Ok(SerializedDocument { id, rev, conflicts, attachments, deleted: false, data })
    }

    /// The record of a deleted document as a listing reports it: nothing but
    /// the identifier and the revision of the deletion.
    pub fn new_deleted(id: &str, rev: RawValue) -> (r: SerializedDocument)
        ensures
            r@ == (SerializedDocumentView {
                id: id@,
                rev: Some(rev@),
                conflicts: Seq::empty(),
                attachments: Seq::empty(),
                deleted: true,
                data: Tree::Null,
            }),
            r@.well_formed(),
    {
        let conflicts: Vec<Revision> = Vec::new();
        let attachments: Vec<(String, Attachment)> = Vec::new();
        assert(revision_views(conflicts@) =~= Seq::empty());
        assert(view_of(attachments@) =~= Seq::empty());
        SerializedDocument {
            id: id.to_owned(),
            rev: Some(Revision(rev)),
            conflicts,
            attachments,
            deleted: true,
            data: RawValue::Null,
        }
    }
}

/// The attachments that carry a payload, by name and in order.
pub open spec fn payloads(attachments: Seq<(Seq<char>, AttachmentView)>) -> Seq<
    (Seq<char>, BlobView),
>
    decreases attachments.len(),
{
    if attachments.len() == 0 {
        Seq::empty()
    } else {
        let earlier = payloads(attachments.drop_last());
        match attachments.last().1 {
            AttachmentView::Data { blob, .. } => earlier.push((attachments.last().0, blob)),
            AttachmentView::Stub { .. } => earlier,
        }
    }
}

/// Each payload's name with its content type and the bytes read of it.
pub open spec fn resolved(pending: Seq<(Seq<char>, BlobView)>, buffers: Seq<Seq<u8>>) -> Seq<
    (Seq<char>, (Seq<char>, Seq<u8>)),
> {
    Seq::new(pending.len(), |i: int| (pending[i].0, (pending[i].1.content_type, buffers[i])))
}

/// The views of a run of byte buffers, one for one.
pub open spec fn buffer_views(buffers: Seq<Vec<u8>>) -> Seq<Seq<u8>> {
    Seq::new(buffers.len(), |i: int| buffers[i]@)
}

/// The snapshot that a document and the bytes read of its payloads make,
/// where there is one buffer for each payload.
pub open spec fn snapshot(doc: SerializedDocumentView, buffers: Seq<Seq<u8>>) -> Option<
    SerializedDocumentDataView,
> {
    let pending = payloads(doc.attachments);
    if buffers.len() == pending.len() {
        Some(
            SerializedDocumentDataView {
                id: doc.id,
                attachments: resolved(pending, buffers),
                data: doc.data.canonical(),
            },
        )
    } else {
        None
    }
}

impl SerializedDocument {
    /// The document taken apart: identifier, revision, body and attachments.
    pub fn deserialize(self) -> (r: (String, Option<Revision>, RawValue, Vec<(String, Attachment)>))
        ensures
            r.0@ == self@.id,
            optional_revision(r.1) == self@.rev,
            r.2@ == self@.data,
            view_of(r.3@) == self@.attachments,
    {
        (self.id, self.rev, self.data, self.attachments)
    }

    /// The payloads whose bytes have to be read, by name and in the order of
    /// the attachments; stubs have none.
    pub fn payloads(&self) -> (r: Vec<(String, Blob)>)
        ensures
            view_of(r@) == payloads(self@.attachments),
    {
        let ghost named = view_of(self.attachments@);
        let mut out: Vec<(String, Blob)> = Vec::new();
        let mut i: usize = 0;
        assert(named.take(0) =~= Seq::empty());
        assert(view_of(out@) =~= Seq::empty());
        while i < self.attachments.len()
            invariant
                i <= self.attachments.len(),
                named == view_of(self.attachments@),
                view_of(out@) == payloads(named.take(i as int)),
            decreases self.attachments.len() - i,
        {
            proof {
                assert(named.take(i + 1).drop_last() =~= named.take(i as int));
                assert(named.take(i + 1).last() == named[i as int]);
            }
            match &self.attachments[i].1 {
                Attachment::Data { blob, .. } => {
                    let ghost before = view_of(out@);
                    out.push((self.attachments[i].0.clone(), blob.clone()));
                    assert(view_of(out@) =~= before.push((named[i as int].0, blob@)));
                },
                Attachment::Stub { .. } => {},
            }
            i += 1;
        }
        assert(named.take(i as int) =~= named);
        out
    }

    /// The self-contained snapshot of this document, given the bytes read of
    /// its payloads: one buffer for each of [`Self::payloads`], in that
    /// order. The snapshot names each payload with its content type and its
    /// bytes, holds the body in canonical form, and carries no revision.
    /// Buffers that do not match the payloads one for one give no snapshot.
    pub fn into_serialized(self, buffers: Vec<Vec<u8>>) -> (r: Result<
        SerializedDocumentData,
        Error,
    >)
        ensures
            match r {
                Ok(data) => snapshot(self@, buffer_views(buffers@)) == Some(data@) && (
                self@.well_formed() ==> data@.well_formed()),
                Err(e) => snapshot(self@, buffer_views(buffers@)) is None && e@
                    == ErrorView::Decoding(DecodingFailure::Reads),
            },
    {
        proof {
            if snapshot(self@, buffer_views(buffers@)) is Some {
                lemma_snapshot_names(self@, buffer_views(buffers@));
            }
        }
        let pending = self.payloads();
        if buffers.len() != pending.len() {
            return Err(Error::Decoding(DecodingFailure::Reads));
        }
        let mut buffers = buffers;
        let ghost read = buffer_views(buffers@);
        let ghost named = view_of(pending@);
        let mut attachments: Vec<(String, (String, Vec<u8>))> = Vec::new();
        let mut i: usize = 0;
        while i < pending.len()
            invariant
                i <= pending.len(),
                buffers@.len() == pending@.len(),
                read.len() == pending@.len(),
                named == view_of(pending@),
                forall|j: int| i <= j < pending@.len() ==> (#[trigger] buffers@[j])@ == read[j],
                attachments@.len() == i,
                forall|j: int|
                    0 <= j < i ==> (#[trigger] attachments@[j]).0@ == named[j].0
                        && attachments@[j].1.0@ == named[j].1.content_type && attachments@[j].1.1@
                        == read[j],
            decreases pending.len() - i,
        {
            let mut bytes: Vec<u8> = Vec::new();
            std::mem::swap(&mut bytes, &mut buffers[i]);
            attachments.push((pending[i].0.clone(), (pending[i].1.content_type.clone(), bytes)));
            i += 1;
        }
        assert(view_of(attachments@) =~= resolved(named, read));
        Ok(SerializedDocumentData { id: self.id, attachments, data: self.data.canonical() })
    }
}

impl Document for SerializedDocument {
    fn id(&self) -> (r: String)
        ensures
            r@ == self@.id,
    {
        self.id.clone()
    }

    fn rev(&self) -> (r: Option<&Revision>)
        ensures
            optional_revision_ref(r) == self@.rev,
    {
        self.rev.as_ref()
    }

    fn serialize(&self) -> (r: Result<RawValue, RawValue>)
        ensures
            r is Ok,
            r->Ok_0@ == self@.data,
    {
        Ok(self.data.clone())
    }

    fn attachments(&self) -> (r: Vec<(String, Blob)>)
        ensures
            view_of(r@) == payloads(self@.attachments),
    {
        self.payloads()
    }

    fn deleted(&self) -> (r: bool)
        ensures
            !r,
    {
        false
    }
}

/// A self-contained snapshot of a document: every payload with its bytes,
/// the body in canonical form. It carries no revision, so it can be written
/// as a new document only, never as an update of the one it was taken of.
#[derive(Debug, PartialEq, Eq)]
pub struct SerializedDocumentData {
    pub id: String,
    /// Content type and bytes, by name.
    pub attachments: Vec<(String, (String, Vec<u8>))>,
    pub data: RawValue,
}

pub struct SerializedDocumentDataView {
    pub id: Seq<char>,
    pub attachments: Seq<(Seq<char>, (Seq<char>, Seq<u8>))>,
    pub data: Tree,
}

impl SerializedDocumentDataView {
    /// No two attachments have the same name.
    pub open spec fn well_formed(self) -> bool {
        unique_keys(self.attachments)
    }
}

impl View for SerializedDocumentData {
    type V = SerializedDocumentDataView;

    open spec fn view(&self) -> SerializedDocumentDataView {
        SerializedDocumentDataView {
            id: self.id@,
            attachments: view_of(self.attachments@),
            data: self.data@,
        }
    }
}

/// A payload over each stored buffer, tagged with its content type.
pub open spec fn rehydrated(stored: Seq<(Seq<char>, (Seq<char>, Seq<u8>))>) -> Seq<
    (Seq<char>, BlobView),
> {
    Seq::new(
        stored.len(),
        |i: int|
            (
                stored[i].0,
                BlobView {
                    content_type: stored[i].1.0,
                    content: crate::value::BlobContentView::Bytes(stored[i].1.1),
                },
            ),
    )
}

impl Document for SerializedDocumentData {
    fn id(&self) -> (r: String)
        ensures
            r@ == self@.id,
    {
        self.id.clone()
    }

    fn rev(&self) -> (r: Option<&Revision>)
        ensures
            r is None,
    {
        None
    }

    fn serialize(&self) -> (r: Result<RawValue, RawValue>)
        ensures
            r is Ok,
            r->Ok_0@ == self@.data,
    {
        Ok(self.data.clone())
    }

    /// A payload for each stored attachment, over a copy of its bytes.
    fn attachments(&self) -> (r: Vec<(String, Blob)>)
        ensures
            view_of(r@) == rehydrated(self@.attachments),
    {
        let mut out: Vec<(String, Blob)> = Vec::new();
        let mut i: usize = 0;
        while i < self.attachments.len()
            invariant
                i <= self.attachments.len(),
                out@.len() == i,
                forall|j: int|
                    0 <= j < i ==> (#[trigger] out@[j]).0@ == self.attachments@[j].0@ && out@[j].1@
                        == (BlobView {
                        content_type: self.attachments@[j].1.0@,
                        content: crate::value::BlobContentView::Bytes(self.attachments@[j].1.1@),
                    }),
            decreases self.attachments.len() - i,
        {
            let stored = &self.attachments[i];
            out.push(
                (stored.0.clone(), Blob::from_bytes(stored.1.0.as_str(), stored.1.1.clone())),
            );
            i += 1;
        }
        assert(view_of(out@) =~= rehydrated(view_of(self.attachments@)));
        out
    }

    fn deleted(&self) -> (r: bool)
        ensures
            !r,
    {
        false
    }
}

/// The names of the members that writing adds are three different names.
pub proof fn lemma_reserved_names()
    ensures
        "_id"@ != "_rev"@,
        "_id"@ != "_deleted"@,
        "_rev"@ != "_deleted"@,
        "_id"@ != "_attachments"@,
        "_rev"@ != "_attachments"@,
        "_id"@ != "_conflicts"@,
        "_rev"@ != "_conflicts"@,
        "_deleted"@ != "_attachments"@,
        "_deleted"@ != "_conflicts"@,
        "_attachments"@ != "_conflicts"@,
{
    reveal_strlit("_id");
    reveal_strlit("_rev");
    reveal_strlit("_deleted");
    reveal_strlit("_attachments");
    reveal_strlit("_conflicts");
    assert("_id"@.len() == 3);
    assert("_rev"@.len() == 4);
    assert("_deleted"@.len() == 8);
    assert("_attachments"@.len() == 12);
    assert("_conflicts"@.len() == 10);
}

/// Stamping an object gives it the identifier under `_id`, gives it the
/// revision under `_rev` where there is one, and leaves every other member
/// as it was.
pub proof fn lemma_stamped(body: Tree, id: Seq<char>, rev: Option<Tree>)
    requires
        body is Object,
    ensures
        stamped(body, id, rev) is Object,
        stamped(body, id, rev).get("_id"@) == Tree::Text(id),
        stamped(body, id, rev).has("_id"@),
        rev matches Some(given) ==> stamped(body, id, rev).get("_rev"@) == given && stamped(
            body,
            id,
            rev,
        ).has("_rev"@),
        rev is None ==> stamped(body, id, rev).get("_rev"@) == body.get("_rev"@) && stamped(
            body,
            id,
            rev,
        ).has("_rev"@) == body.has("_rev"@),
        forall|key: Seq<char>|
            key != "_id"@ && key != "_rev"@ ==> #[trigger] stamped(body, id, rev).get(key)
                == body.get(key) && stamped(body, id, rev).has(key) == body.has(key),
{
    lemma_reserved_names();
    let with_id = body.set("_id"@, Tree::Text(id));
    crate::assoc::lemma_upsert_same(body.entries(), "_id"@, Tree::Text(id));
    crate::assoc::lemma_upsert_other(body.entries(), "_id"@, Tree::Text(id), "_rev"@);
    match rev {
        Some(given) => {
            crate::assoc::lemma_upsert_same(with_id.entries(), "_rev"@, given);
            crate::assoc::lemma_upsert_other(with_id.entries(), "_rev"@, given, "_id"@);
        },
        None => {},
    }
    assert forall|key: Seq<char>| key != "_id"@ && key != "_rev"@ implies #[trigger] stamped(
        body,
        id,
        rev,
    ).get(key) == body.get(key) && stamped(body, id, rev).has(key) == body.has(key) by {
        crate::assoc::lemma_upsert_other(body.entries(), "_id"@, Tree::Text(id), key);
        match rev {
            Some(given) => {
                crate::assoc::lemma_upsert_other(with_id.entries(), "_rev"@, given, key);
            },
            None => {},
        }
    }
}

/// A deletion is written as the marker and the identifier, followed by the
/// revision where there is one, and nothing else.
pub proof fn lemma_tombstone_shape(id: Seq<char>, rev: Option<Tree>)
    ensures
        rev matches Some(given) ==> tombstone(id, rev) == Tree::Object(
            seq![("_deleted"@, Tree::Bool(true)), ("_id"@, Tree::Text(id)), ("_rev"@, given)],
        ),
        rev is None ==> tombstone(id, rev) == Tree::Object(
            seq![("_deleted"@, Tree::Bool(true)), ("_id"@, Tree::Text(id))],
        ),
{
    lemma_reserved_names();
    let marker = seq![("_deleted"@, Tree::Bool(true))];
    assert(!has_key(marker, "_id"@));
    crate::assoc::lemma_missing(marker, "_id"@);
    let with_id = marker.push(("_id"@, Tree::Text(id)));
    assert(with_id =~= seq![("_deleted"@, Tree::Bool(true)), ("_id"@, Tree::Text(id))]);
    match rev {
        Some(given) => {
            assert(!has_key(with_id, "_rev"@));
            crate::assoc::lemma_missing(with_id, "_rev"@);
            assert(with_id.push(("_rev"@, given)) =~= seq![
                ("_deleted"@, Tree::Bool(true)),
                ("_id"@, Tree::Text(id)),
                ("_rev"@, given),
            ]);
        },
        None => {},
    }
}

/// A document that is not deleted and has no attachments is written as its
/// body stamped with identifier and revision: no `_attachments` member is
/// added, and none appears unless the body brought one.
pub proof fn lemma_plain_body(body: Tree, id: Seq<char>, rev: Option<Tree>)
    requires
        body is Object,
    ensures
        encoded(body, Seq::empty(), id, rev) == Some(stamped(body, id, rev)),
        stamped(body, id, rev).has("_attachments"@) == body.has("_attachments"@),
        stamped(body, id, rev).has("_deleted"@) == body.has("_deleted"@),
{
    lemma_reserved_names();
    lemma_stamped(body, id, rev);
    assert(stamped(body, id, rev).get("_attachments"@) == body.get("_attachments"@));
    assert(stamped(body, id, rev).get("_deleted"@) == body.get("_deleted"@));
}

/// A payload is a document exactly where its `_id` is a text; a payload
/// without the member is none.
pub proof fn lemma_id_required(raw: Tree)
    ensures
        decoded_document(raw) is Some <==> raw.get("_id"@) is Text,
        !raw.has("_id"@) ==> decoded_document(raw) is None,
{
    if !raw.has("_id"@) {
        crate::assoc::lemma_missing(raw.entries(), "_id"@);
    }
}

/// A member of `_attachments` without a digest that the host counts as true
/// describes no attachment, and reading goes on without it.
pub proof fn lemma_digest_required(members: Seq<(Seq<char>, Tree)>, name: Seq<char>, entry: Tree)
    requires
        !entry.get("digest"@).truthy(),
    ensures
        admitted(entry) is None,
        decoded_attachments(members.push((name, entry))) == decoded_attachments(members),
{
    assert(members.push((name, entry)).drop_last() =~= members);
}

/// What is read back of a written deletion has the identifier that was
/// written, and neither attachments nor conflicts.
pub proof fn lemma_round_trip_deleted(id: Seq<char>, rev: Option<Tree>)
    ensures
        decoded_document(tombstone(id, rev)) matches Some(doc) && doc.id == id
            && doc.attachments.len() == 0 && doc.conflicts.len() == 0,
{
    lemma_reserved_names();
    let marker = Tree::Object(seq![("_deleted"@, Tree::Bool(true))]);
    lemma_stamped(marker, id, rev);
    let written = tombstone(id, rev);
    assert(!marker.has("_attachments"@));
    assert(!marker.has("_conflicts"@));
    crate::assoc::lemma_missing(written.entries(), "_attachments"@);
    crate::assoc::lemma_missing(written.entries(), "_conflicts"@);
}

/// What is read back of a written document has the identifier that was
/// written. Where the document had no attachments and its body brought
/// neither `_attachments` nor `_conflicts`, what is read back has neither
/// attachments nor conflicts.
pub proof fn lemma_round_trip(
    body: Tree,
    attachments: Seq<(Seq<char>, BlobView)>,
    id: Seq<char>,
    rev: Option<Tree>,
)
    requires
        body is Object,
    ensures
        encoded(body, attachments, id, rev) matches Some(written) && decoded_document(
            written,
        ) matches Some(doc) && doc.id == id && (attachments.len() == 0 && !body.has(
            "_attachments"@,
        ) && !body.has("_conflicts"@) ==> doc.attachments.len() == 0 && doc.conflicts.len() == 0),
{
    lemma_reserved_names();
    let carrying = if attachments.len() > 0 {
        body.set("_attachments"@, Tree::Object(attachment_table(attachments)))
    } else {
        body
    };
    lemma_stamped(carrying, id, rev);
    let written = stamped(carrying, id, rev);
    if attachments.len() == 0 && !body.has("_attachments"@) && !body.has("_conflicts"@) {
        crate::assoc::lemma_missing(written.entries(), "_attachments"@);
        crate::assoc::lemma_missing(written.entries(), "_conflicts"@);
    }
}

/// No two attachments read of a payload have the same name.
pub proof fn lemma_attachment_names_unique(members: Seq<(Seq<char>, Tree)>)
    ensures
        unique_keys(decoded_attachments(members)),
    decreases members.len(),
{
    if members.len() > 0 {
        lemma_attachment_names_unique(members.drop_last());
        match admitted(members.last().1) {
            Some(attachment) => {
                lemma_upsert_unique(
                    decoded_attachments(members.drop_last()),
                    members.last().0,
                    attachment,
                );
            },
            None => {},
        }
    }
}

/// No two attachments are written under the same name.
pub proof fn lemma_written_names_unique(attachments: Seq<(Seq<char>, BlobView)>)
    ensures
        unique_keys(attachment_table(attachments)),
    decreases attachments.len(),
{
    if attachments.len() > 0 {
        lemma_written_names_unique(attachments.drop_last());
        lemma_upsert_unique(
            attachment_table(attachments.drop_last()),
            attachments.last().0,
            attachment_entry(attachments.last().1),
        );
    }
}

/// The payloads of a document are among its attachments: each has the name
/// of an attachment, and where no two attachments have the same name, no two
/// payloads have.
pub proof fn lemma_payload_names(attachments: Seq<(Seq<char>, AttachmentView)>)
    ensures
        payloads(attachments).len() <= attachments.len(),
        forall|name: Seq<char>| #[trigger]
            has_key(payloads(attachments), name) ==> has_key(attachments, name),
        unique_keys(attachments) ==> unique_keys(payloads(attachments)),
    decreases attachments.len(),
{
    if attachments.len() > 0 {
        let earlier = attachments.drop_last();
        let last = attachments.last();
        lemma_payload_names(earlier);
        let found = payloads(attachments);
        assert forall|name: Seq<char>| has_key(found, name) implies has_key(
            attachments,
            name,
        ) by {
            let i = choose|i: int| 0 <= i < found.len() && (#[trigger] found[i]).0 == name;
            if i < payloads(earlier).len() {
                assert(found[i] == payloads(earlier)[i]);
                assert(payloads(earlier)[i].0 == name);
                assert(has_key(payloads(earlier), name));
                assert(has_key(earlier, name));
                let j = choose|j: int| 0 <= j < earlier.len() && (#[trigger] earlier[j]).0 == name;
                assert(attachments[j] == earlier[j]);
                assert(attachments[j].0 == name);
            } else {
                assert(found[i].0 == last.0);
                assert(attachments[attachments.len() - 1].0 == name);
            }
        }
        if unique_keys(attachments) {
            assert(unique_keys(earlier)) by {
                assert forall|i: int, j: int| 0 <= i < j < earlier.len() implies (
                #[trigger] earlier[i]).0 != (#[trigger] earlier[j]).0 by {
                    assert(attachments[i].0 != attachments[j].0);
                }
            }
            assert forall|i: int, j: int| 0 <= i < j < found.len() implies (#[trigger] found[i]).0
                != (#[trigger] found[j]).0 by {
                if j < payloads(earlier).len() {
                    assert(payloads(earlier)[i].0 != payloads(earlier)[j].0);
                } else {
                    assert(found[j].0 == last.0);
                    assert(found[i] == payloads(earlier)[i]);
                    if found[i].0 == last.0 {
                        assert(payloads(earlier)[i].0 == last.0);
                        assert(has_key(payloads(earlier), last.0));
                        assert(has_key(earlier, last.0));
                        let k = choose|k: int|
                            0 <= k < earlier.len() && (#[trigger] earlier[k]).0 == last.0;
                        assert(attachments[k] == earlier[k]);
                        assert(attachments[k].0 != attachments[attachments.len() - 1].0);
                    }
                }
            }
        }
    }
}

/// A snapshot names its payloads as the document does, one for one.
pub proof fn lemma_snapshot_names(doc: SerializedDocumentView, buffers: Seq<Seq<u8>>)
    requires
        snapshot(doc, buffers) is Some,
    ensures
        snapshot(doc, buffers)->Some_0.attachments.len() == payloads(doc.attachments).len(),
        forall|i: int|
            0 <= i < payloads(doc.attachments).len() ==> (#[trigger] snapshot(
                doc,
                buffers,
            )->Some_0.attachments[i]).0 == payloads(doc.attachments)[i].0,
        unique_keys(doc.attachments) ==> unique_keys(snapshot(doc, buffers)->Some_0.attachments),
{
    lemma_payload_names(doc.attachments);
    let pending = payloads(doc.attachments);
    let taken = snapshot(doc, buffers)->Some_0.attachments;
    if unique_keys(doc.attachments) {
        assert forall|i: int, j: int| 0 <= i < j < taken.len() implies (#[trigger] taken[i]).0 != (
        #[trigger] taken[j]).0 by {
            assert(pending[i].0 != pending[j].0);
        }
    }
}

/// What is read back of what was written for a document is a document with
/// an identifier that the document answered.
pub proof fn lemma_written_round_trip<D: Document + ?Sized>(doc: &D, written: Tree)
    requires
        written_for(doc, Ok(written)),
    ensures
        decoded_document(written) matches Some(read) && exists|id: String| #[trigger]
            call_ensures(D::id, (doc,), id) && read.id == id@,
{
    let result = Ok::<Tree, ErrorView>(written);
    let (id, deleted) = choose|id: String, deleted: bool|
        #![trigger call_ensures(D::id, (doc,), id), call_ensures(D::deleted, (doc,), deleted)]
        call_ensures(D::id, (doc,), id) && call_ensures(D::deleted, (doc,), deleted) && if deleted {
            deletion_written(doc, id@, result)
        } else {
            live_written(doc, id@, result)
        };
    if deleted {
        let rev = choose|rev: Option<&Revision>|
            #![trigger call_ensures(D::rev, (doc,), rev)]
            call_ensures(D::rev, (doc,), rev) && result == Ok::<Tree, ErrorView>(
                tombstone(id@, optional_revision_ref(rev)),
            );
        lemma_round_trip_deleted(id@, optional_revision_ref(rev));
    } else {
        let (attachments, answered) = choose|
            attachments: Vec<(String, Blob)>,
            body: Result<RawValue, RawValue>,
        |
            #![trigger call_ensures(D::attachments, (doc,), attachments), call_ensures(D::serialize, (doc,), body)]
            call_ensures(D::attachments, (doc,), attachments) && call_ensures(
                D::serialize,
                (doc,),
                body,
            ) && match body {
                Ok(body) => body_written(doc, id@, view_of(attachments@), body@, result),
                Err(raised) => result == Err::<Tree, ErrorView>(
                    ErrorView::Encoding(EncodingFailureView::Serializer(raised@)),
                ),
            };
        let body = answered->Ok_0;
        let rev = choose|rev: Option<&Revision>|
            #![trigger call_ensures(D::rev, (doc,), rev)]
            call_ensures(D::rev, (doc,), rev) && result == live_outcome(
                body@,
                view_of(attachments@),
                id@,
                optional_revision_ref(rev),
            );
        lemma_round_trip(body@, view_of(attachments@), id@, optional_revision_ref(rev));
    }
    assert(call_ensures(D::id, (doc,), id));
}

/// Where a document answers with no attachments and with no body that
/// brings `_attachments` or `_conflicts`, what is read back of what was
/// written for it has neither attachments nor conflicts.
pub proof fn lemma_written_round_trip_plain<D: Document + ?Sized>(doc: &D, written: Tree)
    requires
        written_for(doc, Ok(written)),
        forall|attachments: Vec<(String, Blob)>| #[trigger]
            call_ensures(D::attachments, (doc,), attachments) ==> attachments@.len() == 0,
        forall|body: Result<RawValue, RawValue>| #[trigger]
            call_ensures(D::serialize, (doc,), body) ==> (body matches Ok(body) ==> !body@.has(
                "_attachments"@,
            ) && !body@.has("_conflicts"@)),
    ensures
        decoded_document(written) matches Some(read) && read.attachments.len() == 0
            && read.conflicts.len() == 0,
{
    let result = Ok::<Tree, ErrorView>(written);
    let (id, deleted) = choose|id: String, deleted: bool|
        #![trigger call_ensures(D::id, (doc,), id), call_ensures(D::deleted, (doc,), deleted)]
        call_ensures(D::id, (doc,), id) && call_ensures(D::deleted, (doc,), deleted) && if deleted {
            deletion_written(doc, id@, result)
        } else {
            live_written(doc, id@, result)
        };
    if deleted {
        let rev = choose|rev: Option<&Revision>|
            #![trigger call_ensures(D::rev, (doc,), rev)]
            call_ensures(D::rev, (doc,), rev) && result == Ok::<Tree, ErrorView>(
                tombstone(id@, optional_revision_ref(rev)),
            );
        lemma_round_trip_deleted(id@, optional_revision_ref(rev));
    } else {
        let (attachments, answered) = choose|
            attachments: Vec<(String, Blob)>,
            body: Result<RawValue, RawValue>,
        |
            #![trigger call_ensures(D::attachments, (doc,), attachments), call_ensures(D::serialize, (doc,), body)]
            call_ensures(D::attachments, (doc,), attachments) && call_ensures(
                D::serialize,
                (doc,),
                body,
            ) && match body {
                Ok(body) => body_written(doc, id@, view_of(attachments@), body@, result),
                Err(raised) => result == Err::<Tree, ErrorView>(
                    ErrorView::Encoding(EncodingFailureView::Serializer(raised@)),
                ),
            };
        let body = answered->Ok_0;
        let rev = choose|rev: Option<&Revision>|
            #![trigger call_ensures(D::rev, (doc,), rev)]
            call_ensures(D::rev, (doc,), rev) && result == live_outcome(
                body@,
                view_of(attachments@),
                id@,
                optional_revision_ref(rev),
            );
        lemma_round_trip(body@, view_of(attachments@), id@, optional_revision_ref(rev));
    }
}

} // verus!
