//! A store with its subscribers: calls run one at a time, and what a call
//! commits is published before the next call starts.

use crate::changes::{changes_of, Change, ChangeView};
use crate::identity::Identity;
use crate::model::{CallView, StoreView};
use crate::notify::{Subscribers, SubscribersView};
use crate::reducers::{apply, has_room_for, Call};
use crate::rules::error_of;
use crate::store::Store;
use vstd::prelude::*;

verus! {

/// A server as a mathematical value. Between calls nothing is pending in
/// the store: every committed change waits in the outboxes.
pub struct ServerView {
    pub store: StoreView,
    pub subscribers: SubscribersView,
}

impl ServerView {
    /// Store and subscribers are well formed, and nothing is pending.
    pub open spec fn wf(self) -> bool {
        &&& self.store.wf()
        &&& self.subscribers.wf()
        &&& self.store.pending == Seq::<ChangeView>::empty()
    }

    /// A server that has seen no call and no subscriber.
    pub open spec fn empty() -> ServerView {
        ServerView { store: StoreView::empty(), subscribers: SubscribersView::empty() }
    }

    /// The server after `call`, made by `sender`: the store has taken the
    /// step, and each subscriber has the changes of the step to collect.
    pub open spec fn call(self, sender: Identity, call: CallView) -> ServerView {
        ServerView {
            store: self.store.step(sender, call).drained(),
            subscribers: self.subscribers.publish(self.store.step(sender, call).pending),
        }
    }
}

/// The server.
#[derive(Debug, PartialEq, Eq)]
pub struct Server {
    store: Store,
    subscribers: Subscribers,
}

impl View for Server {
    type V = ServerView;

    closed spec fn view(&self) -> ServerView {
        ServerView { store: self.store@, subscribers: self.subscribers@ }
    }
}

impl Server {
    /// Store and subscribers are well formed, and nothing is pending.
    pub closed spec fn wf(&self) -> bool {
        &&& self.store.wf()
        &&& self.subscribers.wf()
        &&& self.store@.pending == Seq::<ChangeView>::empty()
    }

    /// A well-formed server has a well-formed value.
    pub proof fn lemma_view_wf(&self)
        requires
            self.wf(),
        ensures
            self@.wf(),
    {
        self.store.lemma_view_wf();
        self.subscribers.lemma_view_wf();
    }

    /// A server with an empty store and no subscribers.
    pub fn new() -> (server: Server)
        ensures
            server.wf(),
            server@ == ServerView::empty(),
    {
        Server { store: Store::new(), subscribers: Subscribers::new() }
    }

    /// The store, to read from.
    pub fn store(&self) -> (store: &Store)
        requires
            self.wf(),
        ensures
            store.wf(),
            store@ == self@.store,
    {
        &self.store
    }

    /// Whether a subscriber can still be taken in.
    pub fn tickets_left(&self) -> (r: bool)
        ensures
            r == (self@.subscribers.last_ticket < u64::MAX),
    {
        self.subscribers.tickets_left()
    }

    /// Takes a subscriber in and hands back its ticket. It will be told
    /// of what later calls commit, not of what was committed before.
    pub fn subscribe(&mut self) -> (ticket: u64)
        requires
            old(self).wf(),
            old(self)@.subscribers.last_ticket < u64::MAX,
        ensures
            final(self).wf(),
            ticket == old(self)@.subscribers.last_ticket + 1,
            final(self)@ == (ServerView {
                subscribers: old(self)@.subscribers.subscribe(),
                ..old(self)@
            }),
    {
        self.subscribers.subscribe()
    }

    /// Lets the subscriber `ticket` go.
    pub fn unsubscribe(&mut self, ticket: u64)
        requires
            old(self).wf(),
        ensures
            final(self).wf(),
            final(self)@ == (ServerView {
                subscribers: old(self)@.subscribers.unsubscribe(ticket as int),
                ..old(self)@
            }),
    {
        self.subscribers.unsubscribe(ticket);
    }

    /// Hands the subscriber `ticket` the changes it has not seen yet, in
    /// the order in which they were committed.
    pub fn collect(&mut self, ticket: u64) -> (changes: Vec<Change>)
        requires
            old(self).wf(),
        ensures
            final(self).wf(),
            changes_of(changes@) == if old(self)@.subscribers.outboxes.contains_key(
                ticket as int,
            ) {
                old(self)@.subscribers.outboxes[ticket as int]
            } else {
                Seq::empty()
            },
            final(self)@ == (ServerView {
                subscribers: old(self)@.subscribers.collect(ticket as int),
                ..old(self)@
            }),
    {
        self.subscribers.collect(ticket)
    }

    /// Whether the store can still number what `call` would insert.
    pub fn has_room_for(&self, call: &Call) -> (r: bool)
        requires
            self.wf(),
        ensures
            r == self@.store.has_room_for(call@),
    {
        has_room_for(&self.store, call)
    }

    /// Runs one call of `sender` and publishes what it committed. A call
    /// that fails commits nothing, so nothing is published for it.
    pub fn call(&mut self, sender: Identity, call: Call) -> (r: Result<(), String>)
        requires
            old(self).wf(),
            old(self)@.store.has_room_for(call@),
        ensures
            final(self).wf(),
            error_of(r) == old(self)@.store.step_error(sender, call@),
            final(self)@ == old(self)@.call(sender, call@),
    {
        let r = apply(&mut self.store, sender, call);
        let changes = self.store.take_changes();
        self.subscribers.publish(&changes);
        r
    }
}

} // verus!
