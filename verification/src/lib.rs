//! Client-side data-access core for a document database with multi-version
//! concurrency: marshalling between typed documents and the dynamic values
//! the host exchanges, and the subscription model of its event streams.
//!
//! Nothing here talks to the host. A database answers each operation with
//! the [`Request`] to make, and reads what the host sent back.

pub mod assoc;
pub mod document;
pub mod error;
pub mod events;
pub mod options;
pub mod responses;
pub mod value;

use crate::assoc::view_of;
use crate::document::{
    decoded_document, is_write_shape, optional_document, optional_revision_ref, outcome,
    serialize, written_for, Document, Revision, SerializedDocument, SerializedDocumentView,
};
use crate::error::{DecodingFailure, Error, ErrorView};
use crate::events::changes_event_emitter::{
    decoded_change, ChangeEvent, ChangeEventView, ChangesEventEmitter,
};
use crate::events::replication_event_emitter::ReplicationEventEmitter;
use crate::events::{Registration, SequenceID, Subscription};
use crate::options::all_docs::AllDocsOptions;
use crate::options::changes::Changes;
use crate::options::create::CreateOptions;
use crate::options::fetch::FetchOptions;
use crate::options::replication::Replication;
use crate::value::{lemma_array_view, lemma_object_view, views, RawValue, Tree};
use vstd::prelude::*;

verus! {

/// One end of a replication: a database that is open, or the name or
/// address of one.
pub enum PouchDBOrStringRef<'a> {
    PouchDB(&'a PouchDB),
    String(&'a str),
}

/// One end of a replication as the host is told it.
#[derive(Debug, PartialEq, Eq)]
pub enum Endpoint {
    /// An open database, with what it was opened with.
    Database(RawValue),
    /// A database by its name or address.
    Name(String),
}

pub enum EndpointView {
    Database(Tree),
    Name(Seq<char>),
}

impl View for Endpoint {
    type V = EndpointView;

    open spec fn view(&self) -> EndpointView {
        match self {
            Endpoint::Database(opened_with) => EndpointView::Database(opened_with@),
            Endpoint::Name(name) => EndpointView::Name(name@),
        }
    }
}

/// An operation for the host to perform.
#[derive(Debug, PartialEq, Eq)]
pub enum Request {
    /// Drop the database.
    Destroy,
    /// Write a document under its identifier.
    Put { doc: RawValue, write_options: Option<RawValue> },
    /// Write a document under an identifier of the host's choosing.
    Post { doc: RawValue },
    /// Read a document.
    Get { id: String, options: RawValue },
    /// Write a batch of documents.
    BulkDocs { docs: RawValue },
    /// List documents.
    AllDocs { options: RawValue },
    /// Open the feed of changes, or read one batch of it.
    Changes { options: RawValue },
    /// Replicate from one database to another.
    Replicate { source: Endpoint, target: Endpoint, options: RawValue },
}

pub enum RequestView {
    Destroy,
    Put { doc: Tree, write_options: Option<Tree> },
    Post { doc: Tree },
    Get { id: Seq<char>, options: Tree },
    BulkDocs { docs: Tree },
    AllDocs { options: Tree },
    Changes { options: Tree },
    Replicate { source: EndpointView, target: EndpointView, options: Tree },
}

impl View for Request {
    type V = RequestView;

    open spec fn view(&self) -> RequestView {
        match self {
            Request::Destroy => RequestView::Destroy,
            Request::Put { doc, write_options } => RequestView::Put {
                doc: doc@,
                write_options: match write_options {
                    Some(options) => Some(options@),
                    None => None,
                },
            },
            Request::Post { doc } => RequestView::Post { doc: doc@ },
            Request::Get { id, options } => RequestView::Get { id: id@, options: options@ },
            Request::BulkDocs { docs } => RequestView::BulkDocs { docs: docs@ },
            Request::AllDocs { options } => RequestView::AllDocs { options: options@ },
            Request::Changes { options } => RequestView::Changes { options: options@ },
            Request::Replicate { source, target, options } => RequestView::Replicate {
                source: source@,
                target: target@,
                options: options@,
            },
        }
    }
}

/// The options of a write that goes through against a conflict.
pub open spec fn forced() -> Tree {
    Tree::Object(seq![("force"@, Tree::Bool(true))])
}

/// The view of what building a request gave.
pub open spec fn request_outcome(r: Result<Request, Error>) -> Result<RequestView, ErrorView> {
    match r {
        Ok(request) => Ok(request@),
        Err(e) => Err(e@),
    }
}

/// What writing a document under its identifier comes to, given what
/// encoding it came to: the request that writes it, or the failure.
pub open spec fn put_outcome(written: Result<Tree, ErrorView>, force: bool) -> Result<
    RequestView,
    ErrorView,
> {
    match written {
        Ok(written) => Ok(
            RequestView::Put {
                doc: written,
                write_options: if force {
                    Some(forced())
                } else {
                    None
                },
            },
        ),
        Err(e) => Err(e),
    }
}

/// What writing a document under an identifier of the host's choosing comes
/// to, given what encoding it came to.
pub open spec fn post_outcome(written: Result<Tree, ErrorView>) -> Result<RequestView, ErrorView> {
    match written {
        Ok(written) => Ok(RequestView::Post { doc: written }),
        Err(e) => Err(e),
    }
}

/// Whether the document was encoded: something is what writing it came to.
pub open spec fn was_encoded<D: Document + ?Sized>(doc: &D) -> bool {
    exists|one: Tree| #[trigger] written_for(doc, Ok(one))
}

/// Whether each document before the one at `at` was encoded.
pub open spec fn encoded_before(docs: Seq<Box<dyn Document>>, at: int) -> bool {
    forall|j: int| 0 <= j < at ==> #[trigger] was_encoded::<dyn Document>(&*docs[j])
}

/// The write of a document in its write shape.
pub fn put_request(written: RawValue, force: bool) -> (r: Request)
    ensures
        r@ == (RequestView::Put {
            doc: written@,
            write_options: if force {
                Some(forced())
            } else {
                None
            },
        }),
{
    if force {
        let mut options = RawValue::object();
        options.set("force", RawValue::Bool(true));
        assert(options@ == forced()) by {
            assert(crate::assoc::upsert(
                Seq::<(Seq<char>, Tree)>::empty(),
                "force"@,
                Tree::Bool(true),
            ) =~= seq![("force"@, Tree::Bool(true))]);
        }
        Request::Put { doc: written, write_options: Some(options) }
    } else {
        Request::Put { doc: written, write_options: None }
    }
}

/// What is written to delete the document `id` at the revision `rev`.
pub open spec fn removal(id: Seq<char>, rev: Tree) -> Tree {
    Tree::Object(
        seq![("_id"@, Tree::Text(id)), ("_rev"@, rev), ("_deleted"@, Tree::Bool(true))],
    )
}

/// The request that deletes the document `id`, where it holds a revision to
/// delete it at; none where it holds no revision.
pub open spec fn removal_of(id: Seq<char>, rev: Option<Tree>) -> Option<RequestView> {
    match rev {
        Some(rev) => Some(RequestView::Put { doc: removal(id, rev), write_options: None }),
        None => None,
    }
}

/// The view of a request that may be absent.
pub open spec fn optional_request(request: Option<Request>) -> Option<RequestView> {
    match request {
        Some(request) => Some(request@),
        None => None,
    }
}

/// The deletion of the document `id` at the revision `rev`.
pub fn remove_request(id: &str, rev: &Revision) -> (r: Request)
    ensures
        r@ == (RequestView::Put { doc: removal(id@, rev@), write_options: None }),
{
    let mut entries: Vec<(String, RawValue)> = Vec::new();
    entries.push(("_id".to_owned(), RawValue::text(id)));
    entries.push(("_rev".to_owned(), rev.0.clone()));
    entries.push(("_deleted".to_owned(), RawValue::Bool(true)));
    proof {
        lemma_object_view(entries);
        assert(view_of(entries@) =~= seq![
            ("_id"@, Tree::Text(id@)),
            ("_rev"@, rev@),
            ("_deleted"@, Tree::Bool(true)),
        ]);
    }
    Request::Put { doc: RawValue::Object(entries), write_options: None }
}

/// The write of a batch of documents, each in its write shape.
pub fn bulk_docs_request(written: Vec<RawValue>) -> (r: Request)
    ensures
        r@ == (RequestView::BulkDocs { docs: Tree::Array(views(written@)) }),
{
    proof {
        lemma_array_view(written);
    }
    Request::BulkDocs { docs: RawValue::Array(written) }
}

/// The document that one row of a listing stands for, if it stands for one.
/// A row that reports an error, or that has no `value`, stands for none. A
/// row whose value is flagged as deleted stands for the record of the
/// deletion, where it has a `rev` and the row's `id` is a text. Any other
/// row stands for the document under `doc`, where that holds one.
pub open spec fn listed_document(row: Tree) -> Option<SerializedDocumentView> {
    if !(row is Object) || row.has("error"@) || row.get("value"@) is Undefined {
        None
    } else if row.get("value"@).get("deleted"@).truthy() {
        match row.get("id"@) {
            Tree::Text(id) => if row.get("value"@).get("rev"@) is Undefined {
                None
            } else {
                Some(
                    SerializedDocumentView {
                        id,
                        rev: Some(row.get("value"@).get("rev"@)),
                        conflicts: Seq::empty(),
                        attachments: Seq::empty(),
                        deleted: true,
                        data: Tree::Null,
                    },
                )
            },
            _ => None,
        }
    } else {
        decoded_document(row.get("doc"@))
    }
}

/// What the rows of a listing stand for, row by row.
pub open spec fn listed_documents(rows: Seq<Tree>) -> Seq<Option<SerializedDocumentView>> {
    Seq::new(rows.len(), |i: int| listed_document(rows[i]))
}

/// The views of documents of which some may be absent.
pub open spec fn optional_documents(docs: Seq<Option<SerializedDocument>>) -> Seq<
    Option<SerializedDocumentView>,
> {
    Seq::new(docs.len(), |i: int| optional_document(docs[i]))
}

fn read_row(row: &RawValue) -> (r: Option<SerializedDocument>)
    ensures
        optional_document(r) == listed_document(row@),
{
    match row.as_object() {
        Some(_) => {},
        None => {
            return None;
        },
    }
    if row.get("error").is_some() {
        return None;
    }
    let value = match row.get("value") {
        Some(value) => value,
        None => {
            return None;
        },
    };
    if value.is_undefined() {
        return None;
    }
    let deleted = match value.get("deleted") {
        Some(flag) => flag.is_truthy(),
        None => false,
    };
    if deleted {
        let id = match row.get("id") {
            Some(RawValue::Text(id)) => id,
            _ => {
                return None;
            },
        };
        match value.get("rev") {
            Some(rev) => if rev.is_undefined() {
                None
            } else {
                Some(SerializedDocument::new_deleted(id.as_str(), rev.clone()))
            },
            None => None,
        }
    } else {
        match row.get("doc") {
            Some(doc) => match SerializedDocument::try_from(doc.clone()) {
                Ok(doc) => Some(doc),
                Err(_) => None,
            },
            None => {
                proof {
                    crate::document::lemma_id_required(Tree::Undefined);
                }
                None
            },
        }
    }
}

/// What the host sent for a listing, read row by row; a listing that is no
/// object cannot be read.
pub fn read_all_docs(response: &RawValue) -> (r: Result<Vec<Option<SerializedDocument>>, Error>)
    ensures
        match r {
            Ok(docs) => response@ is Object && optional_documents(docs@) == listed_documents(
                response@.get("rows"@).items(),
            ),
            Err(e) => !(response@ is Object) && e@ == ErrorView::Decoding(
                DecodingFailure::Rows,
            ),
        },
{
    match response.as_object() {
        Some(_) => {},
        None => {
            return Err(Error::Decoding(DecodingFailure::Rows));
        },
    }
    let mut out: Vec<Option<SerializedDocument>> = Vec::new();
    match response.get("rows") {
        Some(listed) => match listed.as_array() {
            Some(rows) => {
                let mut i: usize = 0;
                while i < rows.len()
                    invariant
                        i <= rows.len(),
                        out@.len() == i,
                        forall|j: int|
                            0 <= j < i ==> optional_document(#[trigger] out@[j])
                                == listed_document(rows@[j]@),
                    decreases rows.len() - i,
                {
                    out.push(read_row(&rows[i]));
                    i += 1;
                }
                assert(optional_documents(out@) =~= listed_documents(views(rows@)));
            },
            None => {
                assert(optional_documents(out@) =~= listed_documents(Seq::empty()));
            },
        },
        None => {
            assert(optional_documents(out@) =~= listed_documents(Seq::empty()));
        },
    }
    Ok(out)
}

/// The views of a run of changes, one for one.
pub open spec fn change_views(changes: Seq<ChangeEvent>) -> Seq<ChangeEventView> {
    Seq::new(changes.len(), |i: int| changes[i]@)
}

/// Whether each record describes a change.
pub open spec fn all_decode(records: Seq<Tree>) -> bool {
    forall|i: int| 0 <= i < records.len() ==> decoded_change(#[trigger] records[i]) is Some
}

/// The changes that the records describe, one for one.
pub open spec fn decoded_changes(records: Seq<Tree>) -> Seq<ChangeEventView> {
    Seq::new(records.len(), |i: int| decoded_change(records[i]).unwrap())
}

/// The batch of changes that a payload holds: the changes of its `results`,
/// in order, and its `last_seq`. It holds one only as a whole: without an
/// array of results, without a last sequence, or with one record that
/// describes no change, there is no batch.
pub open spec fn decoded_batch(info: Tree) -> Result<(Seq<ChangeEventView>, Tree), DecodingFailure> {
    match info.get("results"@) {
        Tree::Array(records) => if info.get("last_seq"@) is Undefined {
            Err(DecodingFailure::LastSeq)
        } else if all_decode(records) {
            Ok((decoded_changes(records), info.get("last_seq"@)))
        } else {
            Err(DecodingFailure::ChangeEvent)
        },
        _ => Err(DecodingFailure::Results),
    }
}

/// Reads one batch of the feed of changes, all of it or nothing.
pub fn read_changes(info: &RawValue) -> (r: Result<(Vec<ChangeEvent>, SequenceID), Error>)
    ensures
        match r {
            Ok((changes, last_seq)) => decoded_batch(info@) == Ok::<
                (Seq<ChangeEventView>, Tree),
                DecodingFailure,
            >((change_views(changes@), last_seq@)),
            Err(e) => decoded_batch(info@) matches Err(failure) && e@ == ErrorView::Decoding(
                failure,
            ),
        },
{
    let records = match info.get("results") {
        Some(listed) => match listed.as_array() {
            Some(records) => records,
            None => {
                return Err(Error::Decoding(DecodingFailure::Results));
            },
        },
        None => {
            return Err(Error::Decoding(DecodingFailure::Results));
        },
    };
    let last_seq = match info.get("last_seq") {
        Some(last_seq) => {
            if last_seq.is_undefined() {
                return Err(Error::Decoding(DecodingFailure::LastSeq));
            }
            SequenceID(last_seq.clone())
        },
        None => {
            return Err(Error::Decoding(DecodingFailure::LastSeq));
        },
    };
    let ghost trees = views(records@);
    let mut changes: Vec<ChangeEvent> = Vec::new();
    let mut i: usize = 0;
    while i < records.len()
        invariant
            i <= records.len(),
            trees == views(records@),
            info@.get("results"@) == Tree::Array(trees),
            !(info@.get("last_seq"@) is Undefined),
            changes@.len() == i,
            forall|j: int|
                0 <= j < i ==> decoded_change(#[trigger] trees[j]) == Some(changes@[j]@),
        decreases records.len() - i,
    {
        match ChangeEvent::new(&records[i]) {
            Ok(change) => {
                changes.push(change);
            },
            Err(e) => {
                assert(decoded_change(trees[i as int]) is None);
                return Err(e);
            },
        }
        i += 1;
    }
    assert(change_views(changes@) =~= decoded_changes(trees));
    Ok((changes, last_seq))
}

/// A database. It holds what it was opened with: a name or address, or a
/// set of options.
#[derive(Debug, PartialEq, Eq)]
pub struct PouchDB {
    opened_with: RawValue,
}

impl View for PouchDB {
    type V = Tree;

    /// What the database was opened with.
    closed spec fn view(&self) -> Tree {
        self.opened_with@
    }
}

/// The view of one end of a replication.
pub open spec fn endpoint(end: PouchDBOrStringRef) -> EndpointView {
    match end {
        PouchDBOrStringRef::PouchDB(db) => EndpointView::Database(db@),
        PouchDBOrStringRef::String(name) => EndpointView::Name(name@),
    }
}

fn endpoint_of(end: PouchDBOrStringRef) -> (r: Endpoint)
    ensures
        r@ == endpoint(end),
{
    match end {
        PouchDBOrStringRef::PouchDB(db) => Endpoint::Database(db.opened_with.clone()),
        PouchDBOrStringRef::String(name) => Endpoint::Name(name.to_owned()),
    }
}

impl PouchDB {
    /// A database by its name or address.
    pub fn new<T: Into<String>>(name: T) -> (r: PouchDB)
        ensures
            r@ matches Tree::Text(given) && exists|text: String|
                call_ensures(<T as Into<String>>::into, (name,), text) && text@ == given,
    {
        let text: String = name.into();
        PouchDB { opened_with: RawValue::Text(text) }
    }

    /// A database opened with options.
    pub fn new_with_options(options: CreateOptions) -> (r: PouchDB)
        ensures
            r@ == options.encoded(),
    {
        PouchDB { opened_with: options.to_raw() }
    }

    /// What the database was opened with.
    pub fn opened_with(&self) -> (r: &RawValue)
        ensures
            r@ == self@,
    {
        &self.opened_with
    }

    /// Drops the database.
    pub fn destroy(self) -> (r: Request)
        ensures
            r@ == RequestView::Destroy,
    {
        Request::Destroy
    }

    /// Writes `doc` under its identifier; with `force`, against a conflict.
    /// What is written is what [`serialize`] gives for the document, and a
    /// document that cannot be encoded is not written.
    pub fn put<D: Document + ?Sized>(&self, doc: &D, force: bool) -> (r: Result<Request, Error>)
        ensures
            exists|written: Result<Tree, ErrorView>| #[trigger]
                written_for(doc, written) && request_outcome(r) == put_outcome(written, force),
            match r {
                Ok(request) => request@ matches RequestView::Put { doc: written, write_options }
                    && is_write_shape(written) && write_options == if force {
                    Some(forced())
                } else {
                    None
                },
                Err(e) => e@ is Encoding,
            },
    {
        let encoded = serialize(doc);
        let ghost written = outcome(encoded);
        let r = match encoded {
            Ok(written) => Ok(put_request(written, force)),
            Err(e) => Err(e),
        };
        assert(written_for(doc, written) && request_outcome(r) == put_outcome(written, force));
        r
    }

    /// Writes `doc` under an identifier of the host's choosing. What is
    /// written is what [`serialize`] gives for the document.
    pub fn post<D: Document + ?Sized>(&self, doc: &D) -> (r: Result<Request, Error>)
        ensures
            exists|written: Result<Tree, ErrorView>| #[trigger]
                written_for(doc, written) && request_outcome(r) == post_outcome(written),
            match r {
                Ok(request) => request@ matches RequestView::Post { doc: written }
                    && is_write_shape(written),
                Err(e) => e@ is Encoding,
            },
    {
        let encoded = serialize(doc);
        let ghost written = outcome(encoded);
        let r = match encoded {
            Ok(written) => Ok(Request::Post { doc: written }),
            Err(e) => Err(e),
        };
        assert(written_for(doc, written) && request_outcome(r) == post_outcome(written));
        r
    }

    /// Reads the document `doc_id`.
    pub fn fetch(&self, doc_id: String, options: &FetchOptions) -> (r: Request)
        ensures
            r@ == (RequestView::Get { id: doc_id@, options: options.encoded() }),
    {
        Request::Get { id: doc_id, options: options.to_raw() }
    }

    /// Deletes `doc` at the revision it holds. A document without a revision
    /// cannot be deleted: for it there is no request. The document is asked
    /// for its identifier and its revision, and what it answers decides the
    /// result as [`removal_of`] says.
    pub fn remove<D: Document + ?Sized>(&self, doc: &D) -> (r: Option<Request>)
        ensures
            exists|id: String, rev: Option<&Revision>|
                #![trigger call_ensures(D::id, (doc,), id), call_ensures(D::rev, (doc,), rev)]
                call_ensures(D::id, (doc,), id) && call_ensures(D::rev, (doc,), rev)
                    && optional_request(r) == removal_of(id@, optional_revision_ref(rev)),
    {
        let id = doc.id();
        let rev = doc.rev();
        let r = match rev {
            Some(rev) => Some(remove_request(id.as_str(), rev)),
            None => None,
        };
        assert(call_ensures(D::id, (doc,), id) && call_ensures(D::rev, (doc,), rev)
            && optional_request(r) == removal_of(id@, optional_revision_ref(rev)));
        r
    }

    /// Writes a batch of documents, of whatever types, each as [`serialize`]
    /// gives it and in the order given. The documents are encoded one after
    /// the other; at the first that cannot be encoded its failure is the
    /// result and nothing is written.
    pub fn bulk_docs(&self, docs: &Vec<Box<dyn Document>>) -> (r: Result<Request, Error>)
        ensures
            match r {
                Ok(request) => request@ matches RequestView::BulkDocs { docs: written }
                    && written is Array && written.items().len() == docs@.len() && forall|i: int|
                    0 <= i < docs@.len() ==> written_for::<dyn Document>(
                        &*docs@[i],
                        Ok(#[trigger] written.items()[i]),
                    ),
                Err(e) => exists|i: int|
                    0 <= i < docs@.len() && #[trigger] written_for::<dyn Document>(
                        &*docs@[i],
                        Err(e@),
                    ) && encoded_before(docs@, i),
            },
    {
        let mut written: Vec<RawValue> = Vec::new();
        let mut i: usize = 0;
        while i < docs.len()
            invariant
                i <= docs.len(),
                written@.len() == i,
                forall|j: int|
                    0 <= j < i ==> written_for::<dyn Document>(
                        &*docs@[j],
                        Ok((#[trigger] written@[j])@),
                    ),
            decreases docs.len() - i,
        {
            let doc: &dyn Document = &*docs[i];
            match serialize(doc) {
                Ok(one) => {
                    written.push(one);
                },
                Err(e) => {
                    assert(written_for::<dyn Document>(&*docs@[i as int], Err(e@)));
                    assert(encoded_before(docs@, i as int)) by {
                        assert forall|j: int| 0 <= j < i implies #[trigger] was_encoded::<
                            dyn Document,
                        >(&*docs@[j]) by {
                            assert(written_for::<dyn Document>(&*docs@[j], Ok(written@[j]@)));
                        }
                    }
                    return Err(e);
                },
            }
            i += 1;
        }
        Ok(bulk_docs_request(written))
    }

    /// Lists documents. Payloads are always asked for as binary values.
    pub fn all_docs(&self, options: &AllDocsOptions) -> (r: Request)
        ensures
            r@ == (RequestView::AllDocs {
                options: options.encoded().set("binary"@, Tree::Bool(true)),
            }),
    {
        let mut object = options.to_raw();
        object.set("binary", RawValue::Bool(true));
        Request::AllDocs { options: object }
    }

    /// Opens the feed of changes, to stay open. The answer is the request
    /// and the subscription through which the changes will arrive: active,
    /// and with nobody listening yet.
    pub fn changes(&self, options: &Changes) -> (r: (Request, ChangesEventEmitter))
        ensures
            r.0@ == (RequestView::Changes { options: options.request(true) }),
            r.1.table() == Seq::<Registration>::empty(),
            r.1.state() == Subscription::Active,
    {
        (Request::Changes { options: options.to_request(true) }, ChangesEventEmitter::new())
    }

    /// Asks for one batch of the feed of changes; [`read_changes`] reads the
    /// answer.
    pub fn changes_oneshot(&self, options: &Changes) -> (r: Request)
        ensures
            r@ == (RequestView::Changes { options: options.request(false) }),
    {
        Request::Changes { options: options.to_request(false) }
    }

    /// Starts a replication from `source` to `target` that stays open; with
    /// `retry`, the host tries again after a failure. The answer is the
    /// request and the subscription through which the replication reports:
    /// active, and with nobody listening yet.
    pub fn replicate(
        source: PouchDBOrStringRef,
        target: PouchDBOrStringRef,
        options: &Replication,
        retry: bool,
    ) -> (r: (Request, ReplicationEventEmitter))
        ensures
            r.0@ == (RequestView::Replicate {
                source: endpoint(source),
                target: endpoint(target),
                options: options.request(retry),
            }),
            r.1.table() == Seq::<Registration>::empty(),
            r.1.state() == Subscription::Active,
    {
        (
            Request::Replicate {
                source: endpoint_of(source),
                target: endpoint_of(target),
                options: options.to_request(retry),
            },
            ReplicationEventEmitter::new(),
        )
    }

    /// A replication that ends by itself asks nothing of the host.
    pub fn replicate_oneshot<'a>(
        _source: PouchDBOrStringRef<'a>,
        _target: PouchDBOrStringRef<'a>,
        _options: &Replication,
    ) -> (r: Result<(), Error>)
        ensures
            r is Ok,
    {
        Ok(())
    }
}

} // verus!
