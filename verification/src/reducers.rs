//! The reducers: the only way to change a store. Each runs to its end and
//! either commits all of its changes or, where it fails, none.

use crate::identity::Identity;
use crate::model::CallView;
use crate::rows::{batch_of, DrawCommand};
use crate::rules::{
    blank_layer, decide_connect, decide_rename_layer, decide_save_layer, decide_send_command,
    decide_set_name, error_of, Write,
};
use crate::store::Store;
use vstd::prelude::*;

verus! {

/// Gives the caller a display name. Fails with the validation error on an
/// empty name, else with the not-found error where the caller has no user
/// row; a failed call changes nothing.
pub fn set_name(store: &mut Store, sender: Identity, name: String) -> (r: Result<(), String>)
    requires
        old(store).wf(),
    ensures
        final(store).wf(),
        error_of(r) == old(store)@.set_name_error(sender, name@),
        final(store)@ == old(store)@.set_name(sender, name@),
{
    proof {
        store.lemma_view_wf();
    }
    let found = store.find_user(sender);
    match decide_set_name(found, name) {
        Ok(row) => {
            store.update_user(row);
            Ok(())
        },
        Err(why) => Err(why),
    }
}

/// Saves `base64` as the content of the layer `layer`, whoever owns it,
/// and makes the caller its owner. Where there is no such layer, a new one
/// is inserted under a fresh id, not under `layer`, and its flag is set
/// whatever `force_update` says.
pub fn save_layer(store: &mut Store, sender: Identity, layer: i32, base64: String, force_update: bool)
    requires
        old(store).wf(),
        old(store)@.layers.contains_key(layer as int) || old(store)@.last_layer_id < i32::MAX,
    ensures
        final(store).wf(),
        final(store)@ == old(store)@.save_layer(sender, layer as int, base64@, force_update),
{
    proof {
        store.lemma_view_wf();
    }
    let found = store.find_layer(layer);
    match decide_save_layer(found, sender, base64, force_update) {
        Write::Update(row) => store.update_layer(row),
        Write::Insert(row) => {
            store.insert_layer(row);
        },
    }
}

/// Inserts an empty layer of the caller.
pub fn create_layer(store: &mut Store, sender: Identity)
    requires
        old(store).wf(),
        old(store)@.last_layer_id < i32::MAX,
    ensures
        final(store).wf(),
        final(store)@ == old(store)@.create_layer(sender),
{
    store.insert_layer(blank_layer(sender));
}

/// Deletes the layer `layer`; where there is none, nothing happens.
/// Batches sent to the layer stay.
pub fn delete_layer(store: &mut Store, layer: i32)
    requires
        old(store).wf(),
    ensures
        final(store).wf(),
        final(store)@ == old(store)@.delete_layer(layer as int),
{
    store.remove_layer(layer);
}

/// Names the layer `layer` and makes the caller its owner. Fails with the
/// not-found error, which names `layer`, where there is no such layer.
pub fn rename_layer(store: &mut Store, sender: Identity, layer: i32, name: String) -> (r: Result<
    (),
    String,
>)
    requires
        old(store).wf(),
    ensures
        final(store).wf(),
        error_of(r) == old(store)@.rename_layer_error(layer as int),
        final(store)@ == old(store)@.rename_layer(sender, layer as int, name@),
{
    proof {
        store.lemma_view_wf();
    }
    let found = store.find_layer(layer);
    match decide_rename_layer(found, layer, sender, name) {
        Ok(row) => {
            store.update_layer(row);
            Ok(())
        },
        Err(why) => Err(why),
    }
}

/// Inserts `commands` as one batch of the caller for the layer `layer`.
/// Fails with the not-found error, which names `layer`, where there is no
/// such layer.
pub fn send_command(store: &mut Store, sender: Identity, layer: i32, commands: Vec<DrawCommand>) -> (r:
    Result<(), String>)
    requires
        old(store).wf(),
        old(store)@.layers.contains_key(layer as int) ==> old(store)@.last_command_id < i32::MAX,
    ensures
        final(store).wf(),
        error_of(r) == old(store)@.send_command_error(layer as int),
        final(store)@ == old(store)@.send_command(sender, layer as int, batch_of(commands@)),
{
    proof {
        store.lemma_view_wf();
    }
    let layer_found = store.has_layer(layer);
    match decide_send_command(layer_found, layer, sender, commands) {
        Ok(row) => {
            store.insert_command(row);
            Ok(())
        },
        Err(why) => Err(why),
    }
}

/// The caller's session starts: the user row comes online, and is made
/// first where the caller never connected before.
pub fn client_connected(store: &mut Store, sender: Identity)
    requires
        old(store).wf(),
    ensures
        final(store).wf(),
        final(store)@ == old(store)@.client_connected(sender),
{
    proof {
        store.lemma_view_wf();
    }
    let found = store.find_user(sender);
    match decide_connect(found, sender) {
        Write::Update(row) => store.update_user(row),
        Write::Insert(row) => store.insert_user(row),
    }
}

/// The caller's session ends: every batch of the caller is deleted. The
/// user row stays as it is, online flag included.
pub fn client_disconnected(store: &mut Store, sender: Identity)
    requires
        old(store).wf(),
    ensures
        final(store).wf(),
        final(store)@ == old(store)@.client_disconnected(sender),
{
    store.remove_commands_of(sender);
}

/// A reducer call with its arguments.
#[derive(Debug, PartialEq, Eq)]
pub enum Call {
    SetName { name: String },
    SaveLayer { layer: i32, base64: String, force_update: bool },
    CreateLayer,
    DeleteLayer { layer: i32 },
    RenameLayer { layer: i32, name: String },
    SendCommand { layer: i32, commands: Vec<DrawCommand> },
    ClientConnected,
    ClientDisconnected,
}

impl View for Call {
    type V = CallView;

    open spec fn view(&self) -> CallView {
        match self {
            Call::SetName { name } => CallView::SetName { name: name@ },
            Call::SaveLayer { layer, base64, force_update } => CallView::SaveLayer {
                layer: *layer as int,
                base64: base64@,
                force_update: *force_update,
            },
            Call::CreateLayer => CallView::CreateLayer,
            Call::DeleteLayer { layer } => CallView::DeleteLayer { layer: *layer as int },
            Call::RenameLayer { layer, name } => CallView::RenameLayer {
                layer: *layer as int,
                name: name@,
            },
            Call::SendCommand { layer, commands } => CallView::SendCommand {
                layer: *layer as int,
                commands: batch_of(commands@),
            },
            Call::ClientConnected => CallView::ClientConnected,
            Call::ClientDisconnected => CallView::ClientDisconnected,
        }
    }
}

/// Whether the store can still number what `call` would insert. It always
/// can for a call that inserts nothing.
pub fn has_room_for(store: &Store, call: &Call) -> (r: bool)
    requires
        store.wf(),
    ensures
        r == store@.has_room_for(call@),
{
    match call {
        Call::SaveLayer { layer, base64, force_update } => store.has_layer(*layer)
            || store.layer_ids_left(),
        Call::CreateLayer => store.layer_ids_left(),
        Call::SendCommand { layer, commands } => !store.has_layer(*layer)
            || store.command_ids_left(),
        _ => true,
    }
}

/// Runs one call of `sender` on the store. Calls handled one after the
/// other through here see each other's changes whole or not at all.
pub fn apply(store: &mut Store, sender: Identity, call: Call) -> (r: Result<(), String>)
    requires
        old(store).wf(),
        old(store)@.has_room_for(call@),
    ensures
        final(store).wf(),
        error_of(r) == old(store)@.step_error(sender, call@),
        final(store)@ == old(store)@.step(sender, call@),
{
    match call {
        Call::SetName { name } => set_name(store, sender, name),
        Call::SaveLayer { layer, base64, force_update } => {
            save_layer(store, sender, layer, base64, force_update);
            Ok(())
        },
        Call::CreateLayer => {
            create_layer(store, sender);
            Ok(())
        },
        Call::DeleteLayer { layer } => {
            delete_layer(store, layer);
            Ok(())
        },
        Call::RenameLayer { layer, name } => rename_layer(store, sender, layer, name),
        Call::SendCommand { layer, commands } => send_command(store, sender, layer, commands),
        Call::ClientConnected => {
            client_connected(store, sender);
            Ok(())
        },
        Call::ClientDisconnected => {
            client_disconnected(store, sender);
            Ok(())
        },
    }
}

} // verus!
