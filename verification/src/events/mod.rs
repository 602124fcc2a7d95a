//! Event subscriptions.
//!
//! An emitter keeps the table of who listens to what. The callbacks
//! themselves live with the host; the table names each by a number, and
//! firing an event answers with the numbers to call, in order.

pub mod changes_event_emitter;
pub mod replication_event_emitter;

use crate::value::{RawValue, Tree};
use vstd::prelude::*;

verus! {

/// An opaque token giving a mutation its place in the history of a database.
/// It is handed back to the host to resume from that place.
#[derive(Debug, PartialEq, Eq)]
pub struct SequenceID(pub RawValue);

impl View for SequenceID {
    type V = Tree;

    open spec fn view(&self) -> Tree {
        self.0@
    }
}

impl Clone for SequenceID {
    fn clone(&self) -> (r: SequenceID)
        ensures
            r@ == self@,
    {
        SequenceID(self.0.clone())
    }
}

impl SequenceID {
    /// Whether two tokens name the same place in the history.
    pub fn same(&self, other: &SequenceID) -> (r: bool)
        ensures
            r == (self@ == other@),
    {
        self.0.same(&other.0)
    }
}

/// The name of an event: a text, or a symbol of the host, known by its
/// handle.
#[derive(Debug, PartialEq, Eq)]
pub enum EventName {
    String(String),
    Symbol(u64),
}

pub enum EventNameView {
    String(Seq<char>),
    Symbol(int),
}

impl View for EventName {
    type V = EventNameView;

    open spec fn view(&self) -> EventNameView {
        match self {
            EventName::String(name) => EventNameView::String(name@),
            EventName::Symbol(handle) => EventNameView::Symbol(*handle as int),
        }
    }
}

impl Clone for EventName {
    fn clone(&self) -> (r: EventName)
        ensures
            r@ == self@,
    {
        match self {
            EventName::String(name) => EventName::String(name.clone()),
            EventName::Symbol(handle) => EventName::Symbol(*handle),
        }
    }
}

impl EventName {
    pub fn string(name: &str) -> (r: EventName)
        ensures
            r@ == EventNameView::String(name@),
    {
        EventName::String(name.to_owned())
    }

    pub fn symbol(symbol: u64) -> (r: EventName)
        ensures
            r@ == EventNameView::Symbol(symbol as int),
    {
        EventName::Symbol(symbol)
    }

    /// Whether two names name the same event.
    pub fn same(&self, other: &EventName) -> (r: bool)
        ensures
            r == (self@ == other@),
    {
        match (self, other) {
            (EventName::String(a), EventName::String(b)) => *a == *b,
            (EventName::Symbol(a), EventName::Symbol(b)) => *a == *b,
            _ => false,
        }
    }
}

/// Where a subscription stands. It starts out active, and it ends once:
/// cancelled by the application, completed by the host, or failed. Where it
/// has ended it stays.
#[derive(Clone, Copy, Debug, PartialEq, Eq, Structural)]
pub enum Subscription {
    Active,
    Cancelled,
    Completed,
    Errored,
}

impl Subscription {
    /// Whether the subscription has ended.
    pub open spec fn ended(self) -> bool {
        !(self is Active)
    }

    /// Where the subscription stands after the host reported completion.
    pub open spec fn completed(self) -> Subscription {
        if self is Active {
            Subscription::Completed
        } else {
            self
        }
    }

    /// Where the subscription stands after the host reported a failure.
    pub open spec fn failed(self) -> Subscription {
        if self is Active {
            Subscription::Errored
        } else {
            self
        }
    }

    /// Where the subscription stands after the application cancelled it.
    pub open spec fn cancelled(self) -> Subscription {
        if self is Active {
            Subscription::Cancelled
        } else {
            self
        }
    }

    pub fn is_active(&self) -> (r: bool)
        ensures
            r == (*self is Active),
    {
        match self {
            Subscription::Active => true,
            _ => false,
        }
    }
}

/// One registration: the event, and the number of the callback.
pub type Registration = (EventNameView, int);

/// The callbacks registered for `name`, in the order they were registered.
pub open spec fn listeners_of(table: Seq<Registration>, name: EventNameView) -> Seq<int>
    decreases table.len(),
{
    if table.len() == 0 {
        Seq::empty()
    } else if table.last().0 == name {
        listeners_of(table.drop_last(), name).push(table.last().1)
    } else {
        listeners_of(table.drop_last(), name)
    }
}

/// Where `registration` was last entered in the table, if it is there.
pub open spec fn last_entry(table: Seq<Registration>, registration: Registration) -> Option<int>
    decreases table.len(),
{
    if table.len() == 0 {
        None
    } else if table.last() == registration {
        Some(table.len() - 1)
    } else {
        last_entry(table.drop_last(), registration)
    }
}

/// The table without the last entry of `registration`; the table itself
/// where it holds none.
pub open spec fn released(table: Seq<Registration>, registration: Registration) -> Seq<
    Registration,
> {
    match last_entry(table, registration) {
        Some(at) => table.remove(at),
        None => table,
    }
}

/// The table without the registrations for `name`, the others in order.
pub open spec fn without_event(table: Seq<Registration>, name: EventNameView) -> Seq<Registration>
    decreases table.len(),
{
    if table.len() == 0 {
        Seq::empty()
    } else if table.last().0 == name {
        without_event(table.drop_last(), name)
    } else {
        without_event(table.drop_last(), name).push(table.last())
    }
}

/// The events that have a registration, each once, in the order of their
/// first registration.
pub open spec fn names_of(table: Seq<Registration>) -> Seq<EventNameView>
    decreases table.len(),
{
    if table.len() == 0 {
        Seq::empty()
    } else {
        let earlier = names_of(table.drop_last());
        if earlier.contains(table.last().0) {
            earlier
        } else {
            earlier.push(table.last().0)
        }
    }
}

/// The handle of one registration. Handing it back to the emitter that gave
/// it releases that registration and no other.
#[derive(Debug)]
pub struct EventListener {
    event_name: EventName,
    listener: u64,
}

impl View for EventListener {
    type V = Registration;

    closed spec fn view(&self) -> Registration {
        (self.event_name@, self.listener as int)
    }
}

impl EventListener {
    /// The event this registration listens to.
    pub fn event_name(&self) -> (r: &EventName)
        ensures
            r@ == self@.0,
    {
        &self.event_name
    }

    /// The number of the callback.
    pub fn listener(&self) -> (r: u64)
        ensures
            r as int == self@.1,
    {
        self.listener
    }
}

/// The table of registrations of one source of events.
#[derive(Debug)]
pub struct EventEmitter {
    table: Vec<(EventName, u64)>,
}

/// The view of a table.
pub open spec fn table_view(table: Seq<(EventName, u64)>) -> Seq<Registration> {
    Seq::new(table.len(), |i: int| (table[i].0@, table[i].1 as int))
}

/// The views of a run of event names, one for one.
pub open spec fn name_views(names: Seq<EventName>) -> Seq<EventNameView> {
    Seq::new(names.len(), |i: int| names[i]@)
}

/// The numbers of a run of callbacks.
pub open spec fn numbers(listeners: Seq<u64>) -> Seq<int> {
    Seq::new(listeners.len(), |i: int| listeners[i] as int)
}

impl View for EventEmitter {
    type V = Seq<Registration>;

    closed spec fn view(&self) -> Seq<Registration> {
        table_view(self.table@)
    }
}

impl EventEmitter {
    /// An emitter nobody listens to.
    pub fn new() -> (r: EventEmitter)
        ensures
            r@ == Seq::<Registration>::empty(),
    {
        let table: Vec<(EventName, u64)> = Vec::new();
        assert(table_view(table@) =~= Seq::empty());
        EventEmitter { table }
    }

    /// Registers the callback `listener` for `event_name`, behind all
    /// earlier registrations. Nothing is checked against them: the same
    /// callback registered twice for an event is called twice.
    pub fn add_listener(&mut self, event_name: &EventName, listener: u64) -> (handle: EventListener)
        ensures
            final(self)@ == old(self)@.push((event_name@, listener as int)),
            handle@ == (event_name@, listener as int),
    {
        let ghost before = self@;
        self.table.push((event_name.clone(), listener));
        assert(self@ =~= before.push((event_name@, listener as int)));
        EventListener { event_name: event_name.clone(), listener }
    }

    /// Releases one registration: the last entry of the handle's event and
    /// callback leaves the table, and every other entry stays where it is in
    /// the order. A handle whose registration is gone already changes
    /// nothing.
    pub fn remove_listener(&mut self, handle: EventListener)
        ensures
            final(self)@ == released(old(self)@, handle@),
    {
        let ghost before = self@;
        let mut i: usize = self.table.len();
        assert(before.take(i as int) =~= before);
        while i > 0
            invariant
                i <= self.table.len(),
                before == table_view(self.table@),
                before == old(self)@,
                last_entry(before, handle@) == last_entry(before.take(i as int), handle@),
            decreases i,
        {
            proof {
                assert(before.take(i as int).drop_last() =~= before.take(i - 1));
                assert(before.take(i as int).last() == before[i - 1]);
            }
            i -= 1;
            if self.table[i].0.same(&handle.event_name) && self.table[i].1 == handle.listener {
                assert(before[i as int] == handle@);
                assert(last_entry(before.take(i + 1), handle@) == Some(i as int));
                assert(released(before, handle@) == before.remove(i as int));
                self.table.remove(i);
                assert(table_view(self.table@) =~= before.remove(i as int));
                return ;
            }
            assert(before[i as int] != handle@);
        }
        assert(before.take(0) =~= Seq::empty());
    }

    /// The callbacks to call for `event_name`, in the order they were
    /// registered, and whether there is any.
    pub fn emit(&self, event_name: &EventName) -> (r: (Vec<u64>, bool))
        ensures
            numbers(r.0@) == listeners_of(self@, event_name@),
            r.1 == (listeners_of(self@, event_name@).len() > 0),
    {
        let ghost table = self@;
        let mut out: Vec<u64> = Vec::new();
        let mut i: usize = 0;
        assert(table.take(0) =~= Seq::empty());
        assert(numbers(out@) =~= Seq::empty());
        while i < self.table.len()
            invariant
                i <= self.table.len(),
                table == table_view(self.table@),
                numbers(out@) == listeners_of(table.take(i as int), event_name@),
            decreases self.table.len() - i,
        {
            proof {
                assert(table.take(i + 1).drop_last() =~= table.take(i as int));
                assert(table.take(i + 1).last() == table[i as int]);
            }
            if self.table[i].0.same(event_name) {
                let ghost before = numbers(out@);
                out.push(self.table[i].1);
                assert(numbers(out@) =~= before.push(table[i as int].1));
            }
            i += 1;
        }
        assert(table.take(i as int) =~= table);
        let handled = out.len() > 0;
        (out, handled)
    }

    /// The events for which a callback is registered, each once, in the
    /// order of their first registration.
    pub fn event_names(&self) -> (r: Vec<EventName>)
        ensures
            name_views(r@) == names_of(self@),
    {
        let ghost table = self@;
        let mut out: Vec<EventName> = Vec::new();
        let mut i: usize = 0;
        assert(table.take(0) =~= Seq::empty());
        assert(name_views(out@) =~= Seq::empty());
        while i < self.table.len()
            invariant
                i <= self.table.len(),
                table == table_view(self.table@),
                name_views(out@) == names_of(table.take(i as int)),
            decreases self.table.len() - i,
        {
            proof {
                assert(table.take(i + 1).drop_last() =~= table.take(i as int));
                assert(table.take(i + 1).last() == table[i as int]);
            }
            let ghost listed = name_views(out@);
            let mut known = false;
            let mut j: usize = 0;
            while j < out.len()
                invariant
                    j <= out.len(),
                    i < self.table.len(),
                    listed == name_views(out@),
                    table == table_view(self.table@),
                    known == exists|k: int| 0 <= k < j && listed[k] == table[i as int].0,
                decreases out.len() - j,
            {
                if out[j].same(&self.table[i].0) {
                    known = true;
                    assert(listed[j as int] == table[i as int].0);
                }
                j += 1;
            }
            assert(known == listed.contains(table[i as int].0));
            if !known {
                out.push(self.table[i].0.clone());
                assert(name_views(out@) =~= listed.push(table[i as int].0));
            }
            i += 1;
        }
        assert(table.take(i as int) =~= table);
        out
    }

    /// Removes the registrations for `event_name`, or all of them where no
    /// event is named.
    pub fn remove_all_listeners(&mut self, event_name: Option<&EventName>)
        ensures
            final(self)@ == match event_name {
                Some(name) => without_event(old(self)@, name@),
                None => Seq::<Registration>::empty(),
            },
    {
        let ghost before = self@;
        let mut kept: Vec<(EventName, u64)> = Vec::new();
        assert(table_view(kept@) =~= Seq::empty());
        match event_name {
            Some(name) => {
                let mut i: usize = 0;
                assert(before.take(0) =~= Seq::empty());
                while i < self.table.len()
                    invariant
                        i <= self.table.len(),
                        before == table_view(self.table@),
                        table_view(kept@) == without_event(before.take(i as int), name@),
                    decreases self.table.len() - i,
                {
                    proof {
                        assert(before.take(i + 1).drop_last() =~= before.take(i as int));
                        assert(before.take(i + 1).last() == before[i as int]);
                    }
                    if !self.table[i].0.same(name) {
                        let ghost so_far = table_view(kept@);
                        kept.push((self.table[i].0.clone(), self.table[i].1));
                        assert(table_view(kept@) =~= so_far.push(before[i as int]));
                    }
                    i += 1;
                }
                assert(before.take(i as int) =~= before);
            },
            None => {},
        }
        self.table = kept;
    }
}

/// Releasing a registration takes out its last entry and nothing else: where
/// the table holds it, the table afterwards is the table without that one
/// position; where it does not, the table is unchanged.
pub proof fn lemma_release_exactly_one(table: Seq<Registration>, registration: Registration)
    ensures
        match last_entry(table, registration) {
            Some(at) => 0 <= at < table.len() && table[at] == registration && released(
                table,
                registration,
            ) == table.remove(at) && forall|later: int|
                at < later < table.len() ==> table[later] != registration,
            None => !table.contains(registration) && released(table, registration) == table,
        },
    decreases table.len(),
{
    if table.len() > 0 && table.last() != registration {
        let earlier = table.drop_last();
        lemma_release_exactly_one(earlier, registration);
        match last_entry(earlier, registration) {
            Some(at) => {
                assert(table[at] == earlier[at]);
                assert forall|later: int| at < later < table.len() implies table[later]
                    != registration by {
                    if later < earlier.len() {
                        assert(table[later] == earlier[later]);
                    }
                }
            },
            None => {
                if table.contains(registration) {
                    let i = choose|i: int| 0 <= i < table.len() && table[i] == registration;
                    assert(earlier[i] == registration);
                }
            },
        }
    }
}

/// Taking one entry out of the table takes one call out of the calls for its
/// event, at the place where that entry stood among them, and leaves the
/// calls for every other event as they were. So the listeners that stay are
/// still called, and in their order.
pub proof fn lemma_others_still_fire(table: Seq<Registration>, at: int, name: EventNameView)
    requires
        0 <= at < table.len(),
    ensures
        table[at].0 != name ==> listeners_of(table.remove(at), name) == listeners_of(table, name),
        table[at].0 == name ==> listeners_of(table.take(at), name).len() < listeners_of(
            table,
            name,
        ).len() && listeners_of(table.remove(at), name) == listeners_of(table, name).remove(
            listeners_of(table.take(at), name).len() as int,
        ),
    decreases table.len(),
{
    let earlier = table.drop_last();
    if at == table.len() - 1 {
        assert(table.remove(at) =~= earlier);
        assert(table.take(at) =~= earlier);
        if table[at].0 == name {
            let calls = listeners_of(earlier, name);
            assert(calls.push(table.last().1).remove(calls.len() as int) =~= calls);
        }
    } else {
        lemma_others_still_fire(earlier, at, name);
        assert(table.remove(at).drop_last() =~= earlier.remove(at));
        assert(table.remove(at).last() == table.last());
        assert(table.take(at) =~= earlier.take(at));
        assert(earlier[at] == table[at]);
        if table[at].0 == name && table.last().0 == name {
            let calls = listeners_of(earlier, name);
            let rank = listeners_of(table.take(at), name).len() as int;
            assert(calls.remove(rank).push(table.last().1) =~= calls.push(table.last().1).remove(
                rank,
            ));
        }
    }
}

/// With all registrations removed, no event has a listener to call.
pub proof fn lemma_nobody_listens(name: EventNameView)
    ensures
        listeners_of(Seq::<Registration>::empty(), name) == Seq::<int>::empty(),
        names_of(Seq::<Registration>::empty()) == Seq::<EventNameView>::empty(),
{
}

} // verus!
