//! The feed of changes of a database: what one change record holds, and the
//! subscription through which records arrive.

use super::{
    listeners_of, numbers, released, EventEmitter, EventListener, EventName, EventNameView,
    Registration, SequenceID, Subscription,
};
use crate::document::{
    decoded_document, optional_document, revision_views, Revision, SerializedDocument,
    SerializedDocumentView,
};
use crate::error::{DecodingFailure, Error, ErrorView};
use crate::value::{views, RawValue, Tree};
use vstd::prelude::*;

verus! {

/// One change of one document.
#[derive(Debug, PartialEq, Eq)]
pub struct ChangeEvent {
    pub id: String,
    /// The revisions the change brought, in the order the host listed them.
    pub changes: Vec<Revision>,
    pub seq: SequenceID,
    pub deleted: bool,
    /// The document after the change, where the host sent it along. A
    /// deletion has none.
    pub doc: Option<SerializedDocument>,
}

pub struct ChangeEventView {
    pub id: Seq<char>,
    pub changes: Seq<Tree>,
    pub seq: Tree,
    pub deleted: bool,
    pub doc: Option<SerializedDocumentView>,
}

impl View for ChangeEvent {
    type V = ChangeEventView;

    open spec fn view(&self) -> ChangeEventView {
        ChangeEventView {
            id: self.id@,
            changes: revision_views(self.changes@),
            seq: self.seq@,
            deleted: self.deleted,
            doc: optional_document(self.doc),
        }
    }
}

/// Whether each listed change names its revision.
pub open spec fn all_name_a_revision(changes: Seq<Tree>) -> bool {
    forall|i: int| 0 <= i < changes.len() ==> !((#[trigger] changes[i]).get("rev"@) is Undefined)
}

/// The revisions that the listed changes name, one for one.
pub open spec fn named_revisions(changes: Seq<Tree>) -> Seq<Tree> {
    Seq::new(changes.len(), |i: int| changes[i].get("rev"@))
}

/// The change that a record of the feed describes, where it describes one:
/// its `id` is a text, its `changes` are an array in which each element
/// names its revision, and it has a `seq`. A record with a `deleted` flag
/// that the host counts as true is one of a deletion and has no document;
/// any other has the document under `doc`, where that holds one.
pub open spec fn decoded_change(info: Tree) -> Option<ChangeEventView> {
    match info.get("id"@) {
        Tree::Text(id) => match info.get("changes"@) {
            Tree::Array(changes) => if all_name_a_revision(changes) && !(info.get("seq"@)
                is Undefined) {
                let deleted = info.get("deleted"@).truthy();
                Some(
                    ChangeEventView {
                        id,
                        changes: named_revisions(changes),
                        seq: info.get("seq"@),
                        deleted,
                        doc: if deleted {
                            None
                        } else {
                            decoded_document(info.get("doc"@))
                        },
                    },
                )
            } else {
                None
            },
            _ => None,
        },
        _ => None,
    }
}

/// The view of a change that may be absent.
pub open spec fn optional_change(change: Option<ChangeEvent>) -> Option<ChangeEventView> {
    match change {
        Some(change) => Some(change@),
        None => None,
    }
}

impl ChangeEvent {
    /// Reads one record of the feed.
    pub fn new(info: &RawValue) -> (r: Result<ChangeEvent, Error>)
        ensures
            match r {
                Ok(change) => decoded_change(info@) == Some(change@),
                Err(e) => decoded_change(info@) is None && e@ == ErrorView::Decoding(
                    DecodingFailure::ChangeEvent,
                ),
            },
    {
        let id = match info.get("id") {
            Some(RawValue::Text(id)) => id.clone(),
            _ => {
                return Err(Error::Decoding(DecodingFailure::ChangeEvent));
            },
        };
        let listed = match info.get("changes") {
            Some(value) => match value.as_array() {
                Some(items) => items,
                None => {
                    return Err(Error::Decoding(DecodingFailure::ChangeEvent));
                },
            },
            None => {
                return Err(Error::Decoding(DecodingFailure::ChangeEvent));
            },
        };
        let ghost trees = views(listed@);
        let mut changes: Vec<Revision> = Vec::new();
        let mut i: usize = 0;
        while i < listed.len()
            invariant
                i <= listed.len(),
                trees == views(listed@),
                info@.get("changes"@) == Tree::Array(trees),
                changes@.len() == i,
                forall|j: int| 0 <= j < i ==> !((#[trigger] trees[j]).get("rev"@) is Undefined),
                forall|j: int| 0 <= j < i ==> (#[trigger] changes@[j])@ == trees[j].get("rev"@),
            decreases listed.len() - i,
        {
            match listed[i].get("rev") {
                Some(rev) => {
                    if rev.is_undefined() {
                        assert(trees[i as int].get("rev"@) is Undefined);
                        return Err(Error::Decoding(DecodingFailure::ChangeEvent));
                    }
                    changes.push(Revision(rev.clone()));
                },
                None => {
                    assert(trees[i as int].get("rev"@) is Undefined);
                    return Err(Error::Decoding(DecodingFailure::ChangeEvent));
                },
            }
            i += 1;
        }
        assert(revision_views(changes@) =~= named_revisions(trees));
        let seq = match info.get("seq") {
            Some(seq) => {
                if seq.is_undefined() {
                    return Err(Error::Decoding(DecodingFailure::ChangeEvent));
                }
                SequenceID(seq.clone())
            },
            None => {
                return Err(Error::Decoding(DecodingFailure::ChangeEvent));
            },
        };
        let deleted = match info.get("deleted") {
            Some(flag) => flag.is_truthy(),
            None => false,
        };
        let doc = if deleted {
            None
        } else {
            match info.get("doc") {
                Some(doc) => match SerializedDocument::try_from(doc.clone()) {
                    Ok(doc) => Some(doc),
                    Err(_) => None,
                },
                None => {
                    proof {
                        crate::document::lemma_id_required(Tree::Undefined);
                    }
                    None
                },
            }
        };
        Ok(ChangeEvent { id, changes, seq, deleted, doc })
    }
}

/// What the application is owed for one event of the feed.
#[derive(Debug)]
pub enum Delivery {
    /// A change, for these callbacks in this order.
    Change { listeners: Vec<u64>, event: ChangeEvent },
    /// The end of the feed.
    Complete { listeners: Vec<u64> },
    /// The failure of the feed, with what the host raised.
    Error { listeners: Vec<u64>, error: RawValue },
    /// Nothing: the event is none of the feed's, or its record is malformed.
    Dropped,
}

pub enum DeliveryView {
    Change { listeners: Seq<int>, event: ChangeEventView },
    Complete { listeners: Seq<int> },
    Error { listeners: Seq<int>, error: Tree },
    Dropped,
}

impl View for Delivery {
    type V = DeliveryView;

    open spec fn view(&self) -> DeliveryView {
        match self {
            Delivery::Change { listeners, event } => DeliveryView::Change {
                listeners: numbers(listeners@),
                event: event@,
            },
            Delivery::Complete { listeners } => DeliveryView::Complete {
                listeners: numbers(listeners@),
            },
            Delivery::Error { listeners, error } => DeliveryView::Error {
                listeners: numbers(listeners@),
                error: error@,
            },
            Delivery::Dropped => DeliveryView::Dropped,
        }
    }
}

/// The name of the event that brings a change.
pub open spec fn change_event() -> EventNameView {
    EventNameView::String("change"@)
}

/// The name of the event that ends the feed.
pub open spec fn complete_event() -> EventNameView {
    EventNameView::String("complete"@)
}

/// The name of the event that reports a failure.
pub open spec fn error_event() -> EventNameView {
    EventNameView::String("error"@)
}

/// What is owed for the event `name` with `payload`, given who listens. A
/// change whose record is malformed is dropped: nobody is called for it.
pub open spec fn owed(table: Seq<Registration>, name: EventNameView, payload: Tree) -> DeliveryView {
    if name == change_event() {
        match decoded_change(payload) {
            Some(event) => DeliveryView::Change { listeners: listeners_of(table, name), event },
            None => DeliveryView::Dropped,
        }
    } else if name == complete_event() {
        DeliveryView::Complete { listeners: listeners_of(table, name) }
    } else if name == error_event() {
        DeliveryView::Error { listeners: listeners_of(table, name), error: payload }
    } else {
        DeliveryView::Dropped
    }
}

/// Where a subscription stands after the event `name`.
pub open spec fn after_event(state: Subscription, name: EventNameView) -> Subscription {
    if name == change_event() {
        state
    } else if name == complete_event() {
        state.completed()
    } else if name == error_event() {
        state.failed()
    } else {
        state
    }
}

/// A subscription to the feed of changes.
#[derive(Debug)]
pub struct ChangesEventEmitter {
    emitter: EventEmitter,
    state: Subscription,
}

impl ChangesEventEmitter {
    /// Who listens to what.
    pub closed spec fn table(&self) -> Seq<Registration> {
        self.emitter@
    }

    /// Where the subscription stands.
    pub closed spec fn state(&self) -> Subscription {
        self.state
    }

    /// A subscription that is active and has no listeners yet.
    pub fn new() -> (r: ChangesEventEmitter)
        ensures
            r.table() == Seq::<Registration>::empty(),
            r.state() == Subscription::Active,
    {
        ChangesEventEmitter { emitter: EventEmitter::new(), state: Subscription::Active }
    }

    pub fn subscription(&self) -> (r: Subscription)
        ensures
            r == self.state(),
    {
        self.state
    }

    /// Cancels the subscription: the host is to be asked to stop the feed. The
    /// answer says whether it has to be asked now: it has, unless the
    /// application has cancelled before. A subscription that the host has
    /// ended stays ended, and the host is asked all the same. No
    /// registration is touched.
    pub fn cancel(&mut self) -> (ask_host: bool)
        ensures
            ask_host == !(old(self).state() is Cancelled),
            final(self).state() == old(self).state().cancelled(),
            final(self).table() == old(self).table(),
    {
        match self.state {
            Subscription::Active => {
                self.state = Subscription::Cancelled;
                true
            },
            Subscription::Cancelled => false,
            Subscription::Completed => true,
            Subscription::Errored => true,
        }
    }

    /// Registers a callback for changes.
    pub fn add_change_listener(&mut self, listener: u64) -> (handle: EventListener)
        ensures
            final(self).table() == old(self).table().push((change_event(), listener as int)),
            final(self).state() == old(self).state(),
            handle@ == (change_event(), listener as int),
    {
        self.emitter.add_listener(&EventName::string("change"), listener)
    }

    /// Registers a callback for the end of the feed.
    pub fn add_complete_listener(&mut self, listener: u64) -> (handle: EventListener)
        ensures
            final(self).table() == old(self).table().push((complete_event(), listener as int)),
            final(self).state() == old(self).state(),
            handle@ == (complete_event(), listener as int),
    {
        self.emitter.add_listener(&EventName::string("complete"), listener)
    }

    /// Registers a callback for the failure of the feed.
    pub fn add_error_listener(&mut self, listener: u64) -> (handle: EventListener)
        ensures
            final(self).table() == old(self).table().push((error_event(), listener as int)),
            final(self).state() == old(self).state(),
            handle@ == (error_event(), listener as int),
    {
        self.emitter.add_listener(&EventName::string("error"), listener)
    }

    /// Releases one registration, and no other.
    pub fn remove_listener(&mut self, handle: EventListener)
        ensures
            final(self).table() == released(old(self).table(), handle@),
            final(self).state() == old(self).state(),
    {
        self.emitter.remove_listener(handle)
    }

    /// Takes an event from the host and answers with what the application
    /// is owed for it. The end of the feed and its failure end an active
    /// subscription; the registrations stay as they are.
    pub fn deliver(&mut self, event_name: &EventName, payload: RawValue) -> (r: Delivery)
        ensures
            r@ == owed(old(self).table(), event_name@, payload@),
            final(self).state() == after_event(old(self).state(), event_name@),
            final(self).table() == old(self).table(),
    {
        if event_name.same(&EventName::string("change")) {
            match ChangeEvent::new(&payload) {
                Ok(event) => {
                    let (listeners, _) = self.emitter.emit(event_name);
                    Delivery::Change { listeners, event }
                },
                Err(_) => Delivery::Dropped,
            }
        } else if event_name.same(&EventName::string("complete")) {
            let (listeners, _) = self.emitter.emit(event_name);
            if self.state.is_active() {
                self.state = Subscription::Completed;
            }
            Delivery::Complete { listeners }
        } else if event_name.same(&EventName::string("error")) {
            let (listeners, _) = self.emitter.emit(event_name);
            if self.state.is_active() {
                self.state = Subscription::Errored;
            }
            Delivery::Error { listeners, error: payload }
        } else {
            Delivery::Dropped
        }
    }

    /// Removes every registration that is left, whether or not its handle
    /// was given back. This is what giving up the subscription does.
    pub fn dispose(&mut self)
        ensures
            final(self).table() == Seq::<Registration>::empty(),
            final(self).state() == old(self).state(),
    {
        self.emitter.remove_all_listeners(None)
    }
}

/// A subscription that has ended stays as it is, whatever event follows.
pub proof fn lemma_ended_stays(state: Subscription, name: EventNameView)
    requires
        state.ended(),
    ensures
        after_event(state, name) == state,
        state.cancelled() == state,
{
}

} // verus!
