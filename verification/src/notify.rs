//! Who is told of committed changes, and what each subscriber has yet to
//! be told.

use crate::assoc::{
    ascending, assoc, lemma_ascending_distinct, lemma_assoc_absent, lemma_assoc_at,
    lemma_assoc_push, lemma_assoc_remove, lemma_assoc_update,
};
use crate::changes::{changes_of, Change, ChangeView};
use vstd::prelude::*;

verus! {

/// The subscribers as a mathematical value: for each ticket that is in
/// use, the changes that its holder has not collected yet, oldest first;
/// and the last ticket handed out.
pub struct SubscribersView {
    pub outboxes: Map<int, Seq<ChangeView>>,
    pub last_ticket: int,
}

impl SubscribersView {
    /// No ticket is in use that was not handed out.
    pub open spec fn wf(self) -> bool {
        &&& 0 <= self.last_ticket
        &&& forall|ticket: int| #[trigger]
            self.outboxes.contains_key(ticket) ==> 1 <= ticket <= self.last_ticket
    }

    /// Nobody subscribed.
    pub open spec fn empty() -> SubscribersView {
        SubscribersView { outboxes: Map::empty(), last_ticket: 0 }
    }

    /// With one subscriber more, under the next ticket, who has nothing to
    /// collect yet.
    pub open spec fn subscribe(self) -> SubscribersView {
        SubscribersView {
            outboxes: self.outboxes.insert(self.last_ticket + 1, Seq::empty()),
            last_ticket: self.last_ticket + 1,
        }
    }

    /// Without the subscriber `ticket`, and what it had not collected.
    pub open spec fn unsubscribe(self, ticket: int) -> SubscribersView {
        SubscribersView { outboxes: self.outboxes.remove(ticket), ..self }
    }

    /// With `changes` behind what each subscriber already had to collect.
    pub open spec fn publish(self, changes: Seq<ChangeView>) -> SubscribersView {
        SubscribersView {
            outboxes: self.outboxes.map_values(|waiting: Seq<ChangeView>| waiting + changes),
            ..self
        }
    }

    /// After the subscriber `ticket` collected what waited for it.
    pub open spec fn collect(self, ticket: int) -> SubscribersView {
        if self.outboxes.contains_key(ticket) {
            SubscribersView { outboxes: self.outboxes.insert(ticket, Seq::empty()), ..self }
        } else {
            self
        }
    }
}

spec fn tickets_of(tickets: Seq<u64>) -> Seq<int> {
    tickets.map_values(|t: u64| t as int)
}

spec fn waiting_of(outboxes: Seq<Vec<Change>>) -> Seq<Seq<ChangeView>> {
    outboxes.map_values(|q: Vec<Change>| changes_of(q@))
}

fn ticket_position(tickets: &Vec<u64>, ticket: u64) -> (r: Option<usize>)
    ensures
        match r {
            Some(i) => i < tickets.len() && tickets[i as int] == ticket,
            None => forall|i: int| 0 <= i < tickets.len() ==> tickets[i] != ticket,
        },
{
    let mut i: usize = 0;
    while i < tickets.len()
        invariant
            i <= tickets.len(),
            forall|j: int| 0 <= j < i ==> tickets[j] != ticket,
        decreases tickets.len() - i,
    {
        if tickets[i] == ticket {
            return Some(i);
        }
        i += 1;
    }
    None
}

fn append_copies(queue: &mut Vec<Change>, changes: &Vec<Change>)
    ensures
        changes_of(final(queue)@) == changes_of(old(queue)@) + changes_of(changes@),
{
    let mut j: usize = 0;
    while j < changes.len()
        invariant
            j <= changes.len(),
            changes_of(queue@) == changes_of(old(queue)@) + changes_of(
                changes@.subrange(0, j as int),
            ),
        decreases changes.len() - j,
    {
        let copy = changes[j].clone();
        proof {
            assert(changes_of(queue@.push(copy)) =~= changes_of(queue@).push(copy@));
        }
        queue.push(copy);
        j += 1;
    }
}

/// The subscribers. Each holds a ticket; tickets are numbered from one
/// and never handed out twice.
#[derive(Debug, PartialEq, Eq)]
pub struct Subscribers {
    tickets: Vec<u64>,
    outboxes: Vec<Vec<Change>>,
    last_ticket: u64,
}

impl View for Subscribers {
    type V = SubscribersView;

    closed spec fn view(&self) -> SubscribersView {
        SubscribersView {
            outboxes: assoc(tickets_of(self.tickets@), waiting_of(self.outboxes@)),
            last_ticket: self.last_ticket as int,
        }
    }
}

impl Subscribers {
    /// Each ticket has its outbox; tickets stand by rising number, none
    /// past the last one handed out.
    pub closed spec fn wf(&self) -> bool {
        &&& self.tickets.len() == self.outboxes.len()
        &&& ascending(tickets_of(self.tickets@), self.last_ticket as int)
    }

    /// Well-formed subscribers have a well-formed value.
    pub proof fn lemma_view_wf(&self)
        requires
            self.wf(),
        ensures
            self@.wf(),
    {
    }

    /// No subscribers.
    pub fn new() -> (subscribers: Subscribers)
        ensures
            subscribers.wf(),
            subscribers@ == SubscribersView::empty(),
    {
        let subscribers = Subscribers { tickets: Vec::new(), outboxes: Vec::new(), last_ticket: 0 };
        assert(subscribers@.outboxes =~= Map::empty());
        subscribers
    }

    /// Whether a ticket can still be handed out.
    pub fn tickets_left(&self) -> (r: bool)
        ensures
            r == (self@.last_ticket < u64::MAX),
    {
        self.last_ticket < u64::MAX
    }

    /// Takes a subscriber in and hands back its ticket. It will be told
    /// of what is published from now on.
    pub fn subscribe(&mut self) -> (ticket: u64)
        requires
            old(self).wf(),
            old(self)@.last_ticket < u64::MAX,
        ensures
            final(self).wf(),
            ticket == old(self)@.last_ticket + 1,
            final(self)@ == old(self)@.subscribe(),
    {
        let ticket: u64 = self.last_ticket + 1;
        let outbox: Vec<Change> = Vec::new();
        proof {
            let keys = tickets_of(self.tickets@);
            let vals = waiting_of(self.outboxes@);
            lemma_ascending_distinct(keys, self.last_ticket as int);
            assert(changes_of(outbox@) =~= Seq::empty());
            lemma_assoc_push(keys, vals, ticket as int, Seq::empty());
            assert(tickets_of(self.tickets@.push(ticket)) =~= keys.push(ticket as int));
            assert(waiting_of(self.outboxes@.push(outbox)) =~= vals.push(Seq::empty()));
        }
        self.tickets.push(ticket);
        self.outboxes.push(outbox);
        self.last_ticket = ticket;
        ticket
    }

    /// Lets the subscriber `ticket` go, with whatever it had not
    /// collected. Does nothing where the ticket is not in use.
    pub fn unsubscribe(&mut self, ticket: u64)
        requires
            old(self).wf(),
        ensures
            final(self).wf(),
            final(self)@ == old(self)@.unsubscribe(ticket as int),
    {
        let ghost keys = tickets_of(self.tickets@);
        let ghost vals = waiting_of(self.outboxes@);
        proof {
            lemma_ascending_distinct(keys, self.last_ticket as int);
        }
        match ticket_position(&self.tickets, ticket) {
            Some(i) => {
                proof {
                    lemma_assoc_remove(keys, vals, i as int);
                    assert(tickets_of(self.tickets@.remove(i as int)) =~= keys.remove(i as int));
                    assert(waiting_of(self.outboxes@.remove(i as int)) =~= vals.remove(i as int));
                }
                self.tickets.remove(i);
                self.outboxes.remove(i);
            },
            None => {
                proof {
                    lemma_assoc_absent(keys, vals, ticket as int);
                    assert(self@.outboxes.remove(ticket as int) =~= self@.outboxes);
                }
            },
        }
    }

    /// Puts `changes`, in their order, behind what each subscriber has yet
    /// to collect.
    pub fn publish(&mut self, changes: &Vec<Change>)
        requires
            old(self).wf(),
        ensures
            final(self).wf(),
            final(self)@ == old(self)@.publish(changes_of(changes@)),
    {
        let ghost keys = tickets_of(self.tickets@);
        let ghost vals = waiting_of(self.outboxes@);
        let ghost news = changes_of(changes@);
        let mut i: usize = 0;
        while i < self.outboxes.len()
            invariant
                i <= self.outboxes.len(),
                self.tickets == old(self).tickets,
                self.last_ticket == old(self).last_ticket,
                self.outboxes.len() == old(self).outboxes.len(),
                vals == waiting_of(old(self).outboxes@),
                news == changes_of(changes@),
                forall|j: int|
                    0 <= j < i ==> changes_of((#[trigger] self.outboxes@[j])@) == vals[j] + news,
                forall|j: int|
                    i <= j < self.outboxes.len() ==> #[trigger] self.outboxes@[j] == old(
                        self,
                    ).outboxes@[j],
            decreases self.outboxes.len() - i,
        {
            append_copies(&mut self.outboxes[i], changes);
            i += 1;
        }
        proof {
            let after = waiting_of(self.outboxes@);
            assert(assoc(keys, after) =~= assoc(keys, vals).map_values(
                |waiting: Seq<ChangeView>| waiting + news,
            ));
        }
    }

    /// Hands the subscriber `ticket` what waited for it, oldest first, and
    /// leaves nothing waiting. Hands out nothing where the ticket is not
    /// in use.
    pub fn collect(&mut self, ticket: u64) -> (changes: Vec<Change>)
        requires
            old(self).wf(),
        ensures
            final(self).wf(),
            changes_of(changes@) == if old(self)@.outboxes.contains_key(ticket as int) {
                old(self)@.outboxes[ticket as int]
            } else {
                Seq::empty()
            },
            final(self)@ == old(self)@.collect(ticket as int),
    {
        let ghost keys = tickets_of(self.tickets@);
        let ghost vals = waiting_of(self.outboxes@);
        proof {
            lemma_ascending_distinct(keys, self.last_ticket as int);
        }
        let mut changes: Vec<Change> = Vec::new();
        match ticket_position(&self.tickets, ticket) {
            Some(i) => {
                proof {
                    lemma_assoc_at(keys, vals, i as int);
                    lemma_assoc_update(keys, vals, i as int, Seq::empty());
                    assert(changes_of(changes@) =~= Seq::empty());
                }
                std::mem::swap(&mut changes, &mut self.outboxes[i]);
                proof {
                    assert(waiting_of(self.outboxes@) =~= vals.update(i as int, Seq::empty()));
                }
            },
            None => {
                proof {
                    lemma_assoc_absent(keys, vals, ticket as int);
                }
            },
        }
        changes
    }
}

} // verus!
