//! The subscription to a running replication between two databases.

use super::{
    listeners_of, numbers, released, EventEmitter, EventListener, EventName, EventNameView,
    Registration, Subscription,
};
use crate::value::{RawValue, Tree};
use vstd::prelude::*;

verus! {

/// What the application is owed for one event of a replication.
#[derive(Debug)]
pub enum Delivery {
    /// Documents were written; `info` is the host's account of them.
    Change { listeners: Vec<u64>, info: RawValue },
    /// The replication is over.
    Complete { listeners: Vec<u64> },
    /// The replication waits: for changes, or to try again after `error`.
    Paused { listeners: Vec<u64>, error: RawValue },
    /// The replication is at work again.
    Active { listeners: Vec<u64> },
    /// A document was refused.
    Denied { listeners: Vec<u64>, error: RawValue },
    /// The replication failed for good.
    Error { listeners: Vec<u64>, error: RawValue },
    /// Nothing: the event is none of a replication's.
    Dropped,
}

pub enum DeliveryView {
    Change { listeners: Seq<int>, info: Tree },
    Complete { listeners: Seq<int> },
    Paused { listeners: Seq<int>, error: Tree },
    Active { listeners: Seq<int> },
    Denied { listeners: Seq<int>, error: Tree },
    Error { listeners: Seq<int>, error: Tree },
    Dropped,
}

impl View for Delivery {
    type V = DeliveryView;

    open spec fn view(&self) -> DeliveryView {
        match self {
            Delivery::Change { listeners, info } => DeliveryView::Change {
                listeners: numbers(listeners@),
                info: info@,
            },
            Delivery::Complete { listeners } => DeliveryView::Complete {
                listeners: numbers(listeners@),
            },
            Delivery::Paused { listeners, error } => DeliveryView::Paused {
                listeners: numbers(listeners@),
                error: error@,
            },
            Delivery::Active { listeners } => DeliveryView::Active {
                listeners: numbers(listeners@),
            },
            Delivery::Denied { listeners, error } => DeliveryView::Denied {
                listeners: numbers(listeners@),
                error: error@,
            },
            Delivery::Error { listeners, error } => DeliveryView::Error {
                listeners: numbers(listeners@),
                error: error@,
            },
            Delivery::Dropped => DeliveryView::Dropped,
        }
    }
}

pub open spec fn change_event() -> EventNameView {
    EventNameView::String("change"@)
}

pub open spec fn complete_event() -> EventNameView {
    EventNameView::String("complete"@)
}

pub open spec fn paused_event() -> EventNameView {
    EventNameView::String("paused"@)
}

pub open spec fn active_event() -> EventNameView {
    EventNameView::String("active"@)
}

pub open spec fn denied_event() -> EventNameView {
    EventNameView::String("denied"@)
}

pub open spec fn error_event() -> EventNameView {
    EventNameView::String("error"@)
}

/// What is owed for the event `name` with `payload`, given who listens.
pub open spec fn owed(table: Seq<Registration>, name: EventNameView, payload: Tree) -> DeliveryView {
    let listeners = listeners_of(table, name);
    if name == change_event() {
        DeliveryView::Change { listeners, info: payload }
    } else if name == complete_event() {
        DeliveryView::Complete { listeners }
    } else if name == paused_event() {
        DeliveryView::Paused { listeners, error: payload }
    } else if name == active_event() {
        DeliveryView::Active { listeners }
    } else if name == denied_event() {
        DeliveryView::Denied { listeners, error: payload }
    } else if name == error_event() {
        DeliveryView::Error { listeners, error: payload }
    } else {
        DeliveryView::Dropped
    }
}

/// Where a subscription stands after the event `name`.
pub open spec fn after_event(state: Subscription, name: EventNameView) -> Subscription {
    if name == change_event() {
        state
    } else if name == complete_event() {
        state.completed()
    } else if name == paused_event() || name == active_event() || name == denied_event() {
        state
    } else if name == error_event() {
        state.failed()
    } else {
        state
    }
}

/// A subscription to a replication.
#[derive(Debug)]
pub struct ReplicationEventEmitter {
    emitter: EventEmitter,
    state: Subscription,
}

impl ReplicationEventEmitter {
    /// Who listens to what.
    pub closed spec fn table(&self) -> Seq<Registration> {
        self.emitter@
    }

    /// Where the subscription stands.
    pub closed spec fn state(&self) -> Subscription {
        self.state
    }

    /// A subscription that is active and has no listeners yet.
    pub fn new() -> (r: ReplicationEventEmitter)
        ensures
            r.table() == Seq::<Registration>::empty(),
            r.state() == Subscription::Active,
    {
        ReplicationEventEmitter { emitter: EventEmitter::new(), state: Subscription::Active }
    }

    pub fn subscription(&self) -> (r: Subscription)
        ensures
            r == self.state(),
    {
        self.state
    }

    /// Cancels the replication: the host is to be asked to stop it. The
    /// answer says whether it has to be asked now: it has, unless the
    /// application has cancelled before. A subscription that the host has
    /// ended stays ended, and the host is asked all the same. No
    /// registration is touched.
    pub fn cancel(&mut self) -> (ask_host: bool)
        ensures
            ask_host == !(old(self).state() is Cancelled),
            final(self).state() == old(self).state().cancelled(),
            final(self).table() == old(self).table(),
    {
        match self.state {
            Subscription::Active => {
                self.state = Subscription::Cancelled;
                true
            },
            Subscription::Cancelled => false,
            Subscription::Completed => true,
            Subscription::Errored => true,
        }
    }

    /// Registers a callback for documents written.
    pub fn add_change_listener(&mut self, listener: u64) -> (handle: EventListener)
        ensures
            final(self).table() == old(self).table().push((change_event(), listener as int)),
            final(self).state() == old(self).state(),
            handle@ == (change_event(), listener as int),
    {
        self.emitter.add_listener(&EventName::string("change"), listener)
    }

    /// Registers a callback for the end of the replication.
    pub fn add_complete_listener(&mut self, listener: u64) -> (handle: EventListener)
        ensures
            final(self).table() == old(self).table().push((complete_event(), listener as int)),
            final(self).state() == old(self).state(),
            handle@ == (complete_event(), listener as int),
    {
        self.emitter.add_listener(&EventName::string("complete"), listener)
    }

    /// Registers a callback for the replication pausing.
    pub fn add_paused_listener(&mut self, listener: u64) -> (handle: EventListener)
        ensures
            final(self).table() == old(self).table().push((paused_event(), listener as int)),
            final(self).state() == old(self).state(),
            handle@ == (paused_event(), listener as int),
    {
        self.emitter.add_listener(&EventName::string("paused"), listener)
    }

    /// Registers a callback for the replication taking up work.
    pub fn add_active_listener(&mut self, listener: u64) -> (handle: EventListener)
        ensures
            final(self).table() == old(self).table().push((active_event(), listener as int)),
            final(self).state() == old(self).state(),
            handle@ == (active_event(), listener as int),
    {
        self.emitter.add_listener(&EventName::string("active"), listener)
    }

    /// Registers a callback for a document being refused.
    pub fn add_denied_listener(&mut self, listener: u64) -> (handle: EventListener)
        ensures
            final(self).table() == old(self).table().push((denied_event(), listener as int)),
            final(self).state() == old(self).state(),
            handle@ == (denied_event(), listener as int),
    {
        self.emitter.add_listener(&EventName::string("denied"), listener)
    }

    /// Registers a callback for the failure of the replication.
    pub fn add_error_listener(&mut self, listener: u64) -> (handle: EventListener)
        ensures
            final(self).table() == old(self).table().push((error_event(), listener as int)),
            final(self).state() == old(self).state(),
            handle@ == (error_event(), listener as int),
    {
        self.emitter.add_listener(&EventName::string("error"), listener)
    }

    /// Releases one registration, and no other.
    pub fn remove_listener(&mut self, handle: EventListener)
        ensures
            final(self).table() == released(old(self).table(), handle@),
            final(self).state() == old(self).state(),
    {
        self.emitter.remove_listener(handle)
    }

    /// Takes an event from the host and answers with what the application
    /// is owed for it. The end of the replication and its failure end an
    /// active subscription; the registrations stay as they are.
    pub fn deliver(&mut self, event_name: &EventName, payload: RawValue) -> (r: Delivery)
        ensures
            r@ == owed(old(self).table(), event_name@, payload@),
            final(self).state() == after_event(old(self).state(), event_name@),
            final(self).table() == old(self).table(),
    {
        let (listeners, _) = self.emitter.emit(event_name);
        if event_name.same(&EventName::string("change")) {
            Delivery::Change { listeners, info: payload }
        } else if event_name.same(&EventName::string("complete")) {
            if self.state.is_active() {
                self.state = Subscription::Completed;
            }
            Delivery::Complete { listeners }
        } else if event_name.same(&EventName::string("paused")) {
            Delivery::Paused { listeners, error: payload }
        } else if event_name.same(&EventName::string("active")) {
            Delivery::Active { listeners }
        } else if event_name.same(&EventName::string("denied")) {
            Delivery::Denied { listeners, error: payload }
        } else if event_name.same(&EventName::string("error")) {
            if self.state.is_active() {
                self.state = Subscription::Errored;
            }
            Delivery::Error { listeners, error: payload }
        } else {
            Delivery::Dropped
        }
    }

    /// Removes every registration that is left, whether or not its handle
    /// was given back. This is what giving up the subscription does.
    pub fn dispose(&mut self)
        ensures
            final(self).table() == Seq::<Registration>::empty(),
            final(self).state() == old(self).state(),
    {
        self.emitter.remove_all_listeners(None)
    }
}

/// A subscription that has ended stays as it is, whatever event follows.
pub proof fn lemma_ended_stays(state: Subscription, name: EventNameView)
    requires
        state.ended(),
    ensures
        after_event(state, name) == state,
        state.cancelled() == state,
{
}

} // verus!
