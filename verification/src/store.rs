//! The table store: three tables held as lists of rows, the counters that
//! number layers and batches, and the log of committed changes.

use crate::assoc::{
    ascending, assoc, lemma_ascending_distinct, lemma_assoc_absent, lemma_assoc_at,
    lemma_assoc_push, lemma_assoc_remove, lemma_assoc_update,
};
use crate::changes::{changes_of, deleted, Change, ChangeView, Operation, Row, RowView};
use crate::identity::Identity;
use crate::model::{retractions, StoreView};
use crate::rows::{Command, CommandView, Layer, LayerView, User, UserView};
use vstd::prelude::*;

verus! {

spec fn user_keys(rows: Seq<User>) -> Seq<Identity> {
    rows.map_values(|r: User| r.identity)
}

spec fn user_vals(rows: Seq<User>) -> Seq<UserView> {
    rows.map_values(|r: User| r@)
}

spec fn layer_keys(rows: Seq<Layer>) -> Seq<int> {
    rows.map_values(|r: Layer| r.id as int)
}

spec fn layer_vals(rows: Seq<Layer>) -> Seq<LayerView> {
    rows.map_values(|r: Layer| r@)
}

spec fn command_keys(rows: Seq<Command>) -> Seq<int> {
    rows.map_values(|r: Command| r.id as int)
}

spec fn command_vals(rows: Seq<Command>) -> Seq<CommandView> {
    rows.map_values(|r: Command| r@)
}

fn user_position(rows: &Vec<User>, who: Identity) -> (r: Option<usize>)
    ensures
        match r {
            Some(i) => i < rows.len() && rows[i as int].identity == who,
            None => forall|i: int| 0 <= i < rows.len() ==> rows[i].identity != who,
        },
{
    let mut i: usize = 0;
    while i < rows.len()
        invariant
            i <= rows.len(),
            forall|j: int| 0 <= j < i ==> rows[j].identity != who,
        decreases rows.len() - i,
    {
        if rows[i].identity.same(&who) {
            return Some(i);
        }
        i += 1;
    }
    None
}

fn layer_position(rows: &Vec<Layer>, id: i32) -> (r: Option<usize>)
    ensures
        match r {
            Some(i) => i < rows.len() && rows[i as int].id == id,
            None => forall|i: int| 0 <= i < rows.len() ==> rows[i].id != id,
        },
{
    let mut i: usize = 0;
    while i < rows.len()
        invariant
            i <= rows.len(),
            forall|j: int| 0 <= j < i ==> rows[j].id != id,
        decreases rows.len() - i,
    {
        if rows[i].id == id {
            return Some(i);
        }
        i += 1;
    }
    None
}

fn command_position(rows: &Vec<Command>, id: i32) -> (r: Option<usize>)
    ensures
        match r {
            Some(i) => i < rows.len() && rows[i as int].id == id,
            None => forall|i: int| 0 <= i < rows.len() ==> rows[i].id != id,
        },
{
    let mut i: usize = 0;
    while i < rows.len()
        invariant
            i <= rows.len(),
            forall|j: int| 0 <= j < i ==> rows[j].id != id,
        decreases rows.len() - i,
    {
        if rows[i].id == id {
            return Some(i);
        }
        i += 1;
    }
    None
}

/// Every batch refers to a layer id that was handed out.
spec fn targets_known(rows: Seq<Command>, last_layer: int) -> bool {
    forall|i: int| 0 <= i < rows.len() ==> 1 <= (#[trigger] rows[i]).layer <= last_layer
}

/// The id below which a sweep over `rows` that has come to position `i`
/// has seen every batch.
spec fn frontier(rows: Seq<Command>, i: int, last: int) -> int {
    if i < rows.len() {
        rows[i].id as int
    } else {
        last + 1
    }
}

/// What a sweep that deletes the batches of `owner` has reached at
/// position `i`: the rows before `i` stay, and of the batches there were
/// at the start, those of `owner` below the frontier are gone.
spec fn swept(
    rows: Seq<Command>,
    i: int,
    last: int,
    start: Map<int, CommandView>,
    owner: Identity,
) -> bool {
    &&& 0 <= i <= rows.len()
    &&& ascending(command_keys(rows), last)
    &&& forall|k: int| #[trigger] start.contains_key(k) ==> 1 <= k <= last
    &&& forall|j: int| 0 <= j < i ==> (#[trigger] rows[j]).owner != owner
    &&& assoc(command_keys(rows), command_vals(rows)) == Map::new(
        |k: int|
            start.contains_key(k) && (start[k].owner != owner || k >= frontier(rows, i, last)),
        |k: int| start[k],
    )
}

/// Every batch that was there at the start and is not below the frontier
/// stands at or behind position `i`.
proof fn lemma_swept_rest(
    rows: Seq<Command>,
    i: int,
    last: int,
    start: Map<int, CommandView>,
    owner: Identity,
    k: int,
)
    requires
        swept(rows, i, last, start, owner),
        start.contains_key(k),
        k >= frontier(rows, i, last),
    ensures
        exists|j: int| i <= j < rows.len() && rows[j].id == k && rows[j]@ == start[k],
{
    let keys = command_keys(rows);
    let vals = command_vals(rows);
    lemma_ascending_distinct(keys, last);
    assert(assoc(keys, vals).contains_key(k));
    let j = keys.index_of(k);
    lemma_assoc_at(keys, vals, j);
    if j < i {
        assert(keys[j] < keys[i]);
    }
}

/// Between two ids with no batch of `owner` in between, nothing is retracted.
proof fn lemma_retractions_skip(commands: Map<int, CommandView>, owner: Identity, lo: int, hi: int)
    requires
        lo <= hi,
        forall|k: int|
            lo < k <= hi ==> !(#[trigger] commands.contains_key(k) && commands[k].owner == owner),
    ensures
        retractions(commands, owner, hi) == retractions(commands, owner, lo),
    decreases hi - lo,
{
    if lo < hi {
        lemma_retractions_skip(commands, owner, lo, hi - 1);
    }
}

/// No batch of `owner` that was there at the start lies between the row at
/// position `i` and the next one.
proof fn lemma_swept_gap(
    rows: Seq<Command>,
    i: int,
    last: int,
    start: Map<int, CommandView>,
    owner: Identity,
)
    requires
        swept(rows, i, last, start, owner),
        i < rows.len(),
    ensures
        frontier(rows, i, last) < frontier(rows, i + 1, last),
        forall|k: int|
            frontier(rows, i, last) < k < frontier(rows, i + 1, last) ==> !#[trigger] start.contains_key(
                k,
            ),
        start.contains_key(frontier(rows, i, last)),
        start[frontier(rows, i, last)] == rows[i]@,
{
    let keys = command_keys(rows);
    let vals = command_vals(rows);
    lemma_ascending_distinct(keys, last);
    lemma_assoc_at(keys, vals, i);
    if i + 1 < rows.len() {
        assert(keys[i] < keys[i + 1]);
    }
    assert forall|k: int|
        frontier(rows, i, last) < k < frontier(rows, i + 1, last) implies !#[trigger] start.contains_key(
        k,
    ) by {
        if start.contains_key(k) {
            lemma_swept_rest(rows, i, last, start, owner, k);
            let j = choose|j: int| i <= j < rows.len() && rows[j].id == k && rows[j]@ == start[k];
            assert(keys[j] == k);
        }
    }
}

/// A sweep starts with nothing retracted.
proof fn lemma_swept_start(rows: Seq<Command>, last: int, owner: Identity)
    requires
        ascending(command_keys(rows), last),
        0 <= last,
    ensures
        swept(rows, 0, last, assoc(command_keys(rows), command_vals(rows)), owner),
        retractions(
            assoc(command_keys(rows), command_vals(rows)),
            owner,
            frontier(rows, 0, last) - 1,
        ) == Seq::<ChangeView>::empty(),
{
    let keys = command_keys(rows);
    let vals = command_vals(rows);
    let start = assoc(keys, vals);
    lemma_ascending_distinct(keys, last);
    assert forall|k: int| #[trigger] start.contains_key(k) implies 1 <= k <= last && k >= frontier(
        rows,
        0,
        last,
    ) by {
        let j = keys.index_of(k);
        if 0 < j {
            assert(keys[0] < keys[j]);
        }
    }
    assert(start =~= Map::new(
        |k: int|
            start.contains_key(k) && (start[k].owner != owner || k >= frontier(rows, 0, last)),
        |k: int| start[k],
    ));
    lemma_retractions_skip(start, owner, 0, frontier(rows, 0, last) - 1);
}

/// The sweep passes a batch of another client.
proof fn lemma_swept_keep(
    rows: Seq<Command>,
    i: int,
    last: int,
    start: Map<int, CommandView>,
    owner: Identity,
)
    requires
        swept(rows, i, last, start, owner),
        i < rows.len(),
        rows[i].owner != owner,
    ensures
        swept(rows, i + 1, last, start, owner),
        retractions(start, owner, frontier(rows, i + 1, last) - 1) == retractions(
            start,
            owner,
            frontier(rows, i, last) - 1,
        ),
{
    lemma_swept_gap(rows, i, last, start, owner);
    let b = frontier(rows, i, last);
    let b2 = frontier(rows, i + 1, last);
    assert(Map::new(
        |k: int| start.contains_key(k) && (start[k].owner != owner || k >= b),
        |k: int| start[k],
    ) =~= Map::new(
        |k: int| start.contains_key(k) && (start[k].owner != owner || k >= b2),
        |k: int| start[k],
    ));
    lemma_retractions_skip(start, owner, b - 1, b2 - 1);
}

/// The sweep takes out a batch of `owner`.
proof fn lemma_swept_drop(
    rows: Seq<Command>,
    i: int,
    last: int,
    start: Map<int, CommandView>,
    owner: Identity,
)
    requires
        swept(rows, i, last, start, owner),
        i < rows.len(),
        rows[i].owner == owner,
    ensures
        swept(rows.remove(i), i, last, start, owner),
        retractions(start, owner, frontier(rows.remove(i), i, last) - 1) == retractions(
            start,
            owner,
            frontier(rows, i, last) - 1,
        ).push(deleted(RowView::Command(rows[i]@))),
{
    lemma_swept_gap(rows, i, last, start, owner);
    let keys = command_keys(rows);
    let vals = command_vals(rows);
    let rest = rows.remove(i);
    let b = frontier(rows, i, last);
    let b2 = frontier(rest, i, last);
    lemma_ascending_distinct(keys, last);
    lemma_assoc_remove(keys, vals, i);
    assert(command_keys(rest) =~= keys.remove(i));
    assert(command_vals(rest) =~= vals.remove(i));
    assert(assoc(keys, vals).remove(b) =~= Map::new(
        |k: int| start.contains_key(k) && (start[k].owner != owner || k >= b2),
        |k: int| start[k],
    ));
    lemma_retractions_skip(start, owner, b, b2 - 1);
}

/// The store. Rows of the two numbered tables stand in the order of their
/// ids, which is the order in which they were inserted.
#[derive(Debug, PartialEq, Eq)]
pub struct Store {
    users: Vec<User>,
    layers: Vec<Layer>,
    commands: Vec<Command>,
    last_layer_id: i32,
    last_command_id: i32,
    pending: Vec<Change>,
}

impl View for Store {
    type V = StoreView;

    closed spec fn view(&self) -> StoreView {
        StoreView {
            users: assoc(user_keys(self.users@), user_vals(self.users@)),
            layers: assoc(layer_keys(self.layers@), layer_vals(self.layers@)),
            commands: assoc(command_keys(self.commands@), command_vals(self.commands@)),
            last_layer_id: self.last_layer_id as int,
            last_command_id: self.last_command_id as int,
            pending: changes_of(self.pending@),
        }
    }
}

impl Clone for Store {
    /// A copy with the same tables, counters and pending changes.
    fn clone(&self) -> (r: Self)
        ensures
            r@ == self@,
            self.wf() ==> r.wf(),
    {
        let users = self.users.clone();
        let layers = self.layers.clone();
        let commands = self.commands.clone();
        let pending = self.pending.clone();
        proof {
            assert(command_keys(commands@) =~= command_keys(self.commands@));
            assert(command_vals(commands@) =~= command_vals(self.commands@));
            assert(changes_of(pending@) =~= changes_of(self.pending@));
        }
        Store {
            users,
            layers,
            commands,
            last_layer_id: self.last_layer_id,
            last_command_id: self.last_command_id,
            pending,
        }
    }
}

impl Store {
    /// No identity has two user rows; layers and batches stand by rising
    /// id, none past the last id handed out.
    pub closed spec fn wf(&self) -> bool {
        &&& user_keys(self.users@).no_duplicates()
        &&& ascending(layer_keys(self.layers@), self.last_layer_id as int)
        &&& ascending(command_keys(self.commands@), self.last_command_id as int)
        &&& targets_known(self.commands@, self.last_layer_id as int)
        &&& 0 <= self.last_layer_id
        &&& 0 <= self.last_command_id
    }

    /// A well-formed store has a well-formed value.
    pub proof fn lemma_view_wf(&self)
        requires
            self.wf(),
        ensures
            self@.wf(),
    {
        lemma_ascending_distinct(layer_keys(self.layers@), self.last_layer_id as int);
        lemma_ascending_distinct(command_keys(self.commands@), self.last_command_id as int);
    }

    /// The empty store.
    pub fn new() -> (store: Store)
        ensures
            store.wf(),
            store@ == StoreView::empty(),
    {
        let store = Store {
            users: Vec::new(),
            layers: Vec::new(),
            commands: Vec::new(),
            last_layer_id: 0,
            last_command_id: 0,
            pending: Vec::new(),
        };
        assert(store@.users =~= Map::empty());
        assert(store@.layers =~= Map::empty());
        assert(store@.commands =~= Map::empty());
        assert(store@.pending =~= Seq::empty());
        store
    }

    /// The user row of `who`, if there is one.
    pub fn find_user(&self, who: Identity) -> (r: Option<User>)
        requires
            self.wf(),
        ensures
            match r {
                Some(row) => self@.users.contains_key(who) && row@ == self@.users[who],
                None => !self@.users.contains_key(who),
            },
    {
        match user_position(&self.users, who) {
            Some(i) => {
                proof {
                    lemma_assoc_at(user_keys(self.users@), user_vals(self.users@), i as int);
                }
                Some(self.users[i].clone())
            },
            None => {
                proof {
                    lemma_assoc_absent(user_keys(self.users@), user_vals(self.users@), who);
                }
                None
            },
        }
    }

    /// The layer with the id `id`, if there is one.
    pub fn find_layer(&self, id: i32) -> (r: Option<Layer>)
        requires
            self.wf(),
        ensures
            match r {
                Some(row) => self@.layers.contains_key(id as int) && row@ == self@.layers[id as int],
                None => !self@.layers.contains_key(id as int),
            },
    {
        proof {
            lemma_ascending_distinct(layer_keys(self.layers@), self.last_layer_id as int);
        }
        match layer_position(&self.layers, id) {
            Some(i) => {
                proof {
                    lemma_assoc_at(layer_keys(self.layers@), layer_vals(self.layers@), i as int);
                }
                Some(self.layers[i].clone())
            },
            None => {
                proof {
                    lemma_assoc_absent(layer_keys(self.layers@), layer_vals(self.layers@), id as int);
                }
                None
            },
        }
    }

    /// Whether there is a layer with the id `id`.
    pub fn has_layer(&self, id: i32) -> (r: bool)
        requires
            self.wf(),
        ensures
            r == self@.layers.contains_key(id as int),
    {
        proof {
            lemma_ascending_distinct(layer_keys(self.layers@), self.last_layer_id as int);
        }
        match layer_position(&self.layers, id) {
            Some(i) => {
                proof {
                    lemma_assoc_at(layer_keys(self.layers@), layer_vals(self.layers@), i as int);
                }
                true
            },
            None => {
                proof {
                    lemma_assoc_absent(layer_keys(self.layers@), layer_vals(self.layers@), id as int);
                }
                false
            },
        }
    }

    /// The batch with the id `id`, if there is one.
    pub fn find_command(&self, id: i32) -> (r: Option<Command>)
        requires
            self.wf(),
        ensures
            match r {
                Some(row) => self@.commands.contains_key(id as int) && row@ == self@.commands[id as int],
                None => !self@.commands.contains_key(id as int),
            },
    {
        proof {
            lemma_ascending_distinct(command_keys(self.commands@), self.last_command_id as int);
        }
        match command_position(&self.commands, id) {
            Some(i) => {
                proof {
                    lemma_assoc_at(command_keys(self.commands@), command_vals(self.commands@), i as int);
                }
                Some(self.commands[i].clone())
            },
            None => {
                proof {
                    lemma_assoc_absent(
                        command_keys(self.commands@),
                        command_vals(self.commands@),
                        id as int,
                    );
                }
                None
            },
        }
    }

    /// Whether a layer can still be numbered. One that never was deleted
    /// keeps its id for good, so the ids of a table run out after
    /// `i32::MAX` insertions.
    pub fn layer_ids_left(&self) -> (r: bool)
        ensures
            r == (self@.last_layer_id < i32::MAX),
    {
        self.last_layer_id < i32::MAX
    }

    /// Whether a batch can still be numbered.
    pub fn command_ids_left(&self) -> (r: bool)
        ensures
            r == (self@.last_command_id < i32::MAX),
    {
        self.last_command_id < i32::MAX
    }

    /// Hands out the changes committed since the last call, oldest first,
    /// and leaves none pending. The tables stay as they are.
    pub fn take_changes(&mut self) -> (changes: Vec<Change>)
        requires
            old(self).wf(),
        ensures
            final(self).wf(),
            changes_of(changes@) == old(self)@.pending,
            final(self)@ == old(self)@.drained(),
    {
        let mut changes: Vec<Change> = Vec::new();
        std::mem::swap(&mut changes, &mut self.pending);
        assert(changes_of(self.pending@) =~= Seq::empty());
        changes
    }

    /// Inserts the row of a user who has none yet.
    pub(crate) fn insert_user(&mut self, row: User)
        requires
            old(self).wf(),
            !old(self)@.users.contains_key(row.identity),
        ensures
            final(self).wf(),
            final(self)@ == old(self)@.insert_user(row@),
    {
        let copy = row.clone();
        let change = Change { op: Operation::Insert, row: Row::User(copy) };
        proof {
            let keys = user_keys(self.users@);
            let vals = user_vals(self.users@);
            lemma_assoc_push(keys, vals, row.identity, row@);
            assert(user_keys(self.users@.push(row)) =~= keys.push(row.identity));
            assert(user_vals(self.users@.push(row)) =~= vals.push(row@));
            assert(changes_of(self.pending@.push(change)) =~= changes_of(self.pending@).push(change@));
        }
        self.users.push(row);
        self.pending.push(change);
    }

    /// Puts `row` in place of the user row with the same identity.
    pub(crate) fn update_user(&mut self, row: User)
        requires
            old(self).wf(),
            old(self)@.users.contains_key(row.identity),
        ensures
            final(self).wf(),
            final(self)@ == old(self)@.update_user(row@),
    {
        let copy = row.clone();
        let change = Change { op: Operation::Update, row: Row::User(copy) };
        match user_position(&self.users, row.identity) {
            Some(i) => {
                proof {
                    let keys = user_keys(self.users@);
                    let vals = user_vals(self.users@);
                    lemma_assoc_update(keys, vals, i as int, row@);
                    assert(user_keys(self.users@.update(i as int, row)) =~= keys);
                    assert(user_vals(self.users@.update(i as int, row)) =~= vals.update(i as int, row@));
                    assert(changes_of(self.pending@.push(change)) =~= changes_of(self.pending@).push(
                        change@,
                    ));
                }
                self.users.set(i, row);
                self.pending.push(change);
            },
            None => {
                proof {
                    lemma_assoc_absent(user_keys(self.users@), user_vals(self.users@), row.identity);
                }
            },
        }
    }

    /// Inserts `row` as a new layer, under the next id, and hands back
    /// that id.
    pub(crate) fn insert_layer(&mut self, row: Layer) -> (id: i32)
        requires
            old(self).wf(),
            old(self)@.last_layer_id < i32::MAX,
        ensures
            final(self).wf(),
            id == old(self)@.next_layer_id(),
            final(self)@ == old(self)@.insert_layer(row@),
    {
        let id: i32 = self.last_layer_id + 1;
        let stored = Layer {
            id,
            name: row.name,
            owner: row.owner,
            base64: row.base64,
            force_update: row.force_update,
        };
        let copy = stored.clone();
        let change = Change { op: Operation::Insert, row: Row::Layer(copy) };
        proof {
            let keys = layer_keys(self.layers@);
            let vals = layer_vals(self.layers@);
            lemma_ascending_distinct(keys, self.last_layer_id as int);
            lemma_assoc_push(keys, vals, id as int, stored@);
            assert(layer_keys(self.layers@.push(stored)) =~= keys.push(id as int));
            assert(layer_vals(self.layers@.push(stored)) =~= vals.push(stored@));
            assert(changes_of(self.pending@.push(change)) =~= changes_of(self.pending@).push(change@));
        }
        self.layers.push(stored);
        self.last_layer_id = id;
        self.pending.push(change);
        id
    }

    /// Puts `row` in place of the layer with the same id.
    pub(crate) fn update_layer(&mut self, row: Layer)
        requires
            old(self).wf(),
            old(self)@.layers.contains_key(row.id as int),
        ensures
            final(self).wf(),
            final(self)@ == old(self)@.update_layer(row@),
    {
        let copy = row.clone();
        let change = Change { op: Operation::Update, row: Row::Layer(copy) };
        proof {
            lemma_ascending_distinct(layer_keys(self.layers@), self.last_layer_id as int);
        }
        match layer_position(&self.layers, row.id) {
            Some(i) => {
                proof {
                    let keys = layer_keys(self.layers@);
                    let vals = layer_vals(self.layers@);
                    lemma_assoc_update(keys, vals, i as int, row@);
                    assert(layer_keys(self.layers@.update(i as int, row)) =~= keys);
                    assert(layer_vals(self.layers@.update(i as int, row)) =~= vals.update(
                        i as int,
                        row@,
                    ));
                    assert(changes_of(self.pending@.push(change)) =~= changes_of(self.pending@).push(
                        change@,
                    ));
                }
                self.layers.set(i, row);
                self.pending.push(change);
            },
            None => {
                proof {
                    lemma_assoc_absent(
                        layer_keys(self.layers@),
                        layer_vals(self.layers@),
                        row.id as int,
                    );
                }
            },
        }
    }

    /// Deletes the layer `id`; does nothing where there is none.
    pub(crate) fn remove_layer(&mut self, id: i32)
        requires
            old(self).wf(),
        ensures
            final(self).wf(),
            final(self)@ == old(self)@.remove_layer(id as int),
    {
        proof {
            lemma_ascending_distinct(layer_keys(self.layers@), self.last_layer_id as int);
        }
        match layer_position(&self.layers, id) {
            Some(i) => {
                proof {
                    let keys = layer_keys(self.layers@);
                    let vals = layer_vals(self.layers@);
                    lemma_assoc_at(keys, vals, i as int);
                    lemma_assoc_remove(keys, vals, i as int);
                    assert(layer_keys(self.layers@.remove(i as int)) =~= keys.remove(i as int));
                    assert(layer_vals(self.layers@.remove(i as int)) =~= vals.remove(i as int));
                }
                let row = self.layers.remove(i);
                let change = Change { op: Operation::Delete, row: Row::Layer(row) };
                proof {
                    assert(changes_of(self.pending@.push(change)) =~= changes_of(self.pending@).push(
                        change@,
                    ));
                }
                self.pending.push(change);
            },
            None => {
                proof {
                    lemma_assoc_absent(layer_keys(self.layers@), layer_vals(self.layers@), id as int);
                }
            },
        }
    }

    /// Inserts `row` as a new batch, under the next id, and hands back
    /// that id.
    pub(crate) fn insert_command(&mut self, row: Command) -> (id: i32)
        requires
            old(self).wf(),
            old(self)@.last_command_id < i32::MAX,
            1 <= row.layer <= old(self)@.last_layer_id,
        ensures
            final(self).wf(),
            id == old(self)@.next_command_id(),
            final(self)@ == old(self)@.insert_command(row@),
    {
        let id: i32 = self.last_command_id + 1;
        let stored = Command { id, layer: row.layer, owner: row.owner, commands: row.commands };
        let copy = stored.clone();
        let change = Change { op: Operation::Insert, row: Row::Command(copy) };
        proof {
            let keys = command_keys(self.commands@);
            let vals = command_vals(self.commands@);
            lemma_ascending_distinct(keys, self.last_command_id as int);
            lemma_assoc_push(keys, vals, id as int, stored@);
            assert(command_keys(self.commands@.push(stored)) =~= keys.push(id as int));
            assert(command_vals(self.commands@.push(stored)) =~= vals.push(stored@));
            assert(changes_of(self.pending@.push(change)) =~= changes_of(self.pending@).push(change@));
        }
        self.commands.push(stored);
        self.last_command_id = id;
        self.pending.push(change);
        id
    }

    /// Deletes every batch of `owner`, by rising id.
    pub(crate) fn remove_commands_of(&mut self, owner: Identity)
        requires
            old(self).wf(),
        ensures
            final(self).wf(),
            final(self)@ == old(self)@.remove_commands_of(owner),
    {
        let ghost start = self@.commands;
        let ghost last = self.last_command_id as int;
        proof {
            lemma_swept_start(self.commands@, last, owner);
        }
        let mut i: usize = 0;
        while i < self.commands.len()
            invariant
                self.users == old(self).users,
                self.layers == old(self).layers,
                self.last_layer_id == old(self).last_layer_id,
                self.last_command_id == old(self).last_command_id,
                last == self.last_command_id,
                start == old(self)@.commands,
                swept(self.commands@, i as int, last, start, owner),
                targets_known(self.commands@, self.last_layer_id as int),
                changes_of(self.pending@) == old(self)@.pending + retractions(
                    start,
                    owner,
                    frontier(self.commands@, i as int, last) - 1,
                ),
            decreases self.commands.len() - i,
        {
            if self.commands[i].owner.same(&owner) {
                proof {
                    lemma_swept_drop(self.commands@, i as int, last, start, owner);
                }
                let ghost earlier = changes_of(self.pending@);
                let row = self.commands.remove(i);
                let change = Change { op: Operation::Delete, row: Row::Command(row) };
                proof {
                    assert(changes_of(self.pending@.push(change)) =~= earlier.push(change@));
                }
                self.pending.push(change);
            } else {
                proof {
                    lemma_swept_keep(self.commands@, i as int, last, start, owner);
                }
                i += 1;
            }
        }
        proof {
            assert(self@.commands =~= old(self)@.remove_commands_of(owner).commands);
        }
    }
}

} // verus!
