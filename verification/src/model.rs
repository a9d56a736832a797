//! The store as a mathematical value, and every reducer as a function from
//! one such value to the next.

use crate::changes::{deleted, inserted, updated, ChangeView, RowView};
use crate::decimal::decimal;
use crate::identity::Identity;
use crate::rows::{CommandView, DrawCommandView, LayerView, UserView};
use vstd::prelude::*;

verus! {

/// The message of the validation error: a name was empty.
pub open spec fn empty_name_text() -> Seq<char> {
    "Names must not be empty"@
}

/// The message of the not-found error of `set_name`.
pub open spec fn unknown_user_text() -> Seq<char> {
    "Cannot set name for unknown user"@
}

/// The message of the not-found error of `rename_layer`; it ends in the
/// decimal text of the id that was asked for.
pub open spec fn unknown_layer_text(id: int) -> Seq<char> {
    "Rename layer event for an unknown layer with id "@ + decimal(id)
}

/// The message of the not-found error of `send_command`; the decimal text
/// of the id that was asked for stands in its middle.
pub open spec fn missing_layer_text(id: int) -> Seq<char> {
    "Layer with id "@ + decimal(id) + " is not exist"@
}

/// The row of a user who connects for the first time.
pub open spec fn first_seen(identity: Identity) -> UserView {
    UserView { identity, name: None, online: true }
}

/// The row of a layer that is about to be inserted: no id yet, no name,
/// and marked for a full replace whatever the caller asked for.
pub open spec fn new_layer(owner: Identity, base64: Option<Seq<char>>) -> LayerView {
    LayerView { id: 0, name: None, owner, base64, force_update: true }
}

/// `active` after `owner` saved `base64` over it; the name stays.
pub open spec fn saved_over(
    active: LayerView,
    owner: Identity,
    base64: Seq<char>,
    force_update: bool,
) -> LayerView {
    LayerView { owner, base64: Some(base64), force_update, ..active }
}

/// `active` after `owner` renamed it; content and flag stay.
pub open spec fn renamed(active: LayerView, owner: Identity, name: Seq<char>) -> LayerView {
    LayerView { owner, name: Some(name), ..active }
}

/// The batch that `owner` sends to `layer`, before it has an id.
pub open spec fn new_batch(layer: int, owner: Identity, commands: Seq<DrawCommandView>) -> CommandView {
    CommandView { id: 0, layer, owner, commands }
}

/// The deletions of the batches of `owner` with an id up to `upto`, by
/// ascending id.
pub open spec fn retractions(commands: Map<int, CommandView>, owner: Identity, upto: int) -> Seq<
    ChangeView,
>
    decreases upto,
{
    if upto <= 0 {
        Seq::empty()
    } else {
        let earlier = retractions(commands, owner, upto - 1);
        if commands.contains_key(upto) && commands[upto].owner == owner {
            earlier.push(deleted(RowView::Command(commands[upto])))
        } else {
            earlier
        }
    }
}

/// The whole store: three tables, the last id that each of the two
/// numbered tables handed out, and the changes committed but not yet
/// handed to subscribers, oldest first.
pub struct StoreView {
    pub users: Map<Identity, UserView>,
    pub layers: Map<int, LayerView>,
    pub commands: Map<int, CommandView>,
    pub last_layer_id: int,
    pub last_command_id: int,
    pub pending: Seq<ChangeView>,
}

impl StoreView {
    /// Every row stands under its own key, no id is in use that was not
    /// handed out, and every batch refers to a layer id that was handed
    /// out: the layer was there when the batch came, though it may be gone
    /// by now.
    pub open spec fn wf(self) -> bool {
        &&& 0 <= self.last_layer_id
        &&& 0 <= self.last_command_id
        &&& forall|who: Identity| #[trigger]
            self.users.contains_key(who) ==> self.users[who].identity == who
        &&& forall|id: int| #[trigger]
            self.layers.contains_key(id) ==> self.layers[id].id == id && 1 <= id
                <= self.last_layer_id
        &&& forall|id: int| #[trigger]
            self.commands.contains_key(id) ==> self.commands[id].id == id && 1 <= id
                <= self.last_command_id && 1 <= self.commands[id].layer <= self.last_layer_id
    }

    /// The store before anything happened.
    pub open spec fn empty() -> StoreView {
        StoreView {
            users: Map::empty(),
            layers: Map::empty(),
            commands: Map::empty(),
            last_layer_id: 0,
            last_command_id: 0,
            pending: Seq::empty(),
        }
    }

    // The table store.
    /// A new user row under its identity.
    pub open spec fn insert_user(self, row: UserView) -> StoreView {
        StoreView {
            users: self.users.insert(row.identity, row),
            pending: self.pending.push(inserted(RowView::User(row))),
            ..self
        }
    }

    /// `row` in place of the user row with the same identity.
    pub open spec fn update_user(self, row: UserView) -> StoreView {
        StoreView {
            users: self.users.insert(row.identity, row),
            pending: self.pending.push(updated(RowView::User(row))),
            ..self
        }
    }

    /// The id that the next inserted layer gets.
    pub open spec fn next_layer_id(self) -> int {
        self.last_layer_id + 1
    }

    /// A new layer: `row` under the next id, whatever id it came with.
    pub open spec fn insert_layer(self, row: LayerView) -> StoreView {
        let stored = LayerView { id: self.next_layer_id(), ..row };
        StoreView {
            layers: self.layers.insert(stored.id, stored),
            last_layer_id: stored.id,
            pending: self.pending.push(inserted(RowView::Layer(stored))),
            ..self
        }
    }

    /// `row` in place of the layer with the same id.
    pub open spec fn update_layer(self, row: LayerView) -> StoreView {
        StoreView {
            layers: self.layers.insert(row.id, row),
            pending: self.pending.push(updated(RowView::Layer(row))),
            ..self
        }
    }

    /// Without the layer `id`; the same store where there is none.
    pub open spec fn remove_layer(self, id: int) -> StoreView {
        if self.layers.contains_key(id) {
            StoreView {
                layers: self.layers.remove(id),
                pending: self.pending.push(deleted(RowView::Layer(self.layers[id]))),
                ..self
            }
        } else {
            self
        }
    }

    /// The id that the next inserted batch gets.
    pub open spec fn next_command_id(self) -> int {
        self.last_command_id + 1
    }

    /// A new batch: `row` under the next id, whatever id it came with.
    pub open spec fn insert_command(self, row: CommandView) -> StoreView {
        let stored = CommandView { id: self.next_command_id(), ..row };
        StoreView {
            commands: self.commands.insert(stored.id, stored),
            last_command_id: stored.id,
            pending: self.pending.push(inserted(RowView::Command(stored))),
            ..self
        }
    }

    /// Without the batches of `owner`; all others stay as they are.
    pub open spec fn remove_commands_of(self, owner: Identity) -> StoreView {
        StoreView {
            commands: Map::new(
                |id: int| self.commands.contains_key(id) && self.commands[id].owner != owner,
                |id: int| self.commands[id],
            ),
            pending: self.pending + retractions(self.commands, owner, self.last_command_id),
            ..self
        }
    }

    /// With nothing pending; the tables stay.
    pub open spec fn drained(self) -> StoreView {
        StoreView { pending: Seq::empty(), ..self }
    }

    // The reducers.
    /// Why `set_name` fails, if it does: an empty name first, then a
    /// caller without a user row.
    pub open spec fn set_name_error(self, sender: Identity, name: Seq<char>) -> Option<Seq<char>> {
        if name.len() == 0 {
            Some(empty_name_text())
        } else if !self.users.contains_key(sender) {
            Some(unknown_user_text())
        } else {
            None
        }
    }

    /// The store after `set_name`.
    pub open spec fn set_name(self, sender: Identity, name: Seq<char>) -> StoreView {
        if self.set_name_error(sender, name) is Some {
            self
        } else {
            self.update_user(UserView { name: Some(name), ..self.users[sender] })
        }
    }

    /// The store after `save_layer`.
    pub open spec fn save_layer(
        self,
        sender: Identity,
        layer: int,
        base64: Seq<char>,
        force_update: bool,
    ) -> StoreView {
        if self.layers.contains_key(layer) {
            self.update_layer(saved_over(self.layers[layer], sender, base64, force_update))
        } else {
            self.insert_layer(new_layer(sender, Some(base64)))
        }
    }

    /// The store after `create_layer`.
    pub open spec fn create_layer(self, sender: Identity) -> StoreView {
        self.insert_layer(new_layer(sender, None))
    }

    /// The store after `delete_layer`.
    pub open spec fn delete_layer(self, layer: int) -> StoreView {
        self.remove_layer(layer)
    }

    /// Why `rename_layer` fails, if it does.
    pub open spec fn rename_layer_error(self, layer: int) -> Option<Seq<char>> {
        if self.layers.contains_key(layer) {
            None
        } else {
            Some(unknown_layer_text(layer))
        }
    }

    /// The store after `rename_layer`.
    pub open spec fn rename_layer(self, sender: Identity, layer: int, name: Seq<char>) -> StoreView {
        if self.layers.contains_key(layer) {
            self.update_layer(renamed(self.layers[layer], sender, name))
        } else {
            self
        }
    }

    /// Why `send_command` fails, if it does.
    pub open spec fn send_command_error(self, layer: int) -> Option<Seq<char>> {
        if self.layers.contains_key(layer) {
            None
        } else {
            Some(missing_layer_text(layer))
        }
    }

    /// The store after `send_command`.
    pub open spec fn send_command(
        self,
        sender: Identity,
        layer: int,
        commands: Seq<DrawCommandView>,
    ) -> StoreView {
        if self.layers.contains_key(layer) {
            self.insert_command(new_batch(layer, sender, commands))
        } else {
            self
        }
    }

    /// The store after `client_connected`.
    pub open spec fn client_connected(self, sender: Identity) -> StoreView {
        if self.users.contains_key(sender) {
            self.update_user(UserView { online: true, ..self.users[sender] })
        } else {
            self.insert_user(first_seen(sender))
        }
    }

    /// The store after `client_disconnected`.
    pub open spec fn client_disconnected(self, sender: Identity) -> StoreView {
        self.remove_commands_of(sender)
    }

    // Any call.
    /// Why `call` fails, if it does.
    pub open spec fn step_error(self, sender: Identity, call: CallView) -> Option<Seq<char>> {
        match call {
            CallView::SetName { name } => self.set_name_error(sender, name),
            CallView::RenameLayer { layer, name } => self.rename_layer_error(layer),
            CallView::SendCommand { layer, commands } => self.send_command_error(layer),
            _ => None,
        }
    }

    /// The store after `call`, made by `sender`.
    pub open spec fn step(self, sender: Identity, call: CallView) -> StoreView {
        match call {
            CallView::SetName { name } => self.set_name(sender, name),
            CallView::SaveLayer { layer, base64, force_update } => self.save_layer(
                sender,
                layer,
                base64,
                force_update,
            ),
            CallView::CreateLayer => self.create_layer(sender),
            CallView::DeleteLayer { layer } => self.delete_layer(layer),
            CallView::RenameLayer { layer, name } => self.rename_layer(sender, layer, name),
            CallView::SendCommand { layer, commands } => self.send_command(sender, layer, commands),
            CallView::ClientConnected => self.client_connected(sender),
            CallView::ClientDisconnected => self.client_disconnected(sender),
        }
    }

    /// Whether the id that `call` would hand out still fits the machine.
    pub open spec fn has_room_for(self, call: CallView) -> bool {
        match call {
            CallView::SaveLayer { layer, base64, force_update } => self.layers.contains_key(layer)
                || self.last_layer_id < i32::MAX,
            CallView::CreateLayer => self.last_layer_id < i32::MAX,
            CallView::SendCommand { layer, commands } => self.layers.contains_key(layer)
                ==> self.last_command_id < i32::MAX,
            _ => true,
        }
    }

    /// The store after the calls of `trace`, one after the other.
    pub open spec fn run(self, trace: Seq<(Identity, CallView)>) -> StoreView
        decreases trace.len(),
    {
        if trace.len() == 0 {
            self
        } else {
            self.run(trace.drop_last()).step(trace.last().0, trace.last().1)
        }
    }
}

/// A reducer call with its arguments, as a mathematical value.
pub enum CallView {
    SetName { name: Seq<char> },
    SaveLayer { layer: int, base64: Seq<char>, force_update: bool },
    CreateLayer,
    DeleteLayer { layer: int },
    RenameLayer { layer: int, name: Seq<char> },
    SendCommand { layer: int, commands: Seq<DrawCommandView> },
    ClientConnected,
    ClientDisconnected,
}

} // verus!
