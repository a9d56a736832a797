//! What holds of the reducers, proved of the store as a mathematical value.
//! Every reducer leaves a store whose value is the one that `model` gives,
//! so each of these holds of the stores that the reducers make.

use crate::changes::{deleted, inserted, updated, ChangeView, RowView};
use crate::decimal::decimal;
use crate::identity::Identity;
use crate::model::{
    empty_name_text, missing_layer_text, retractions, unknown_layer_text, unknown_user_text,
    CallView, StoreView,
};
use crate::rows::{CommandView, DrawCommandView, LayerView, UserView};
use crate::server::ServerView;
use vstd::prelude::*;

verus! {

/// Whether `needle` stands somewhere in `text`, character by character.
pub open spec fn occurs_in(needle: Seq<char>, text: Seq<char>) -> bool {
    exists|at: int|
        0 <= at && at + needle.len() <= text.len() && #[trigger] text.subrange(
            at,
            at + needle.len(),
        ) == needle
}

/// A caller who has a user row and gives a name that is not empty
/// succeeds: the row gets exactly that name and keeps identity and online
/// flag, every other user row stays, and so do layers and batches.
pub proof fn law_set_name_names_the_caller(s: StoreView, sender: Identity, name: Seq<char>)
    requires
        s.wf(),
        s.users.contains_key(sender),
        name.len() > 0,
    ensures
        s.set_name_error(sender, name) is None,
        s.set_name(sender, name).users == s.users.insert(
            sender,
            UserView { identity: sender, name: Some(name), online: s.users[sender].online },
        ),
        s.set_name(sender, name).layers == s.layers,
        s.set_name(sender, name).commands == s.commands,
        s.set_name(sender, name).pending == s.pending.push(
            updated(
                RowView::User(
                    UserView { identity: sender, name: Some(name), online: s.users[sender].online },
                ),
            ),
        ),
        s.set_name(sender, name).wf(),
{
}

/// The empty name is refused with the validation error, whoever calls,
/// and the store stays exactly as it was.
pub proof fn law_set_name_refuses_the_empty_name(s: StoreView, sender: Identity)
    ensures
        s.set_name_error(sender, Seq::empty()) == Some(empty_name_text()),
        s.set_name(sender, Seq::empty()) == s,
{
}

/// A caller without a user row cannot set a name: the call fails with the
/// not-found error and changes nothing. (With the empty name the call
/// fails too, but on validation, which comes first.)
pub proof fn law_set_name_needs_a_user(s: StoreView, sender: Identity, name: Seq<char>)
    requires
        !s.users.contains_key(sender),
        name.len() > 0,
    ensures
        s.set_name_error(sender, name) == Some(unknown_user_text()),
        s.set_name(sender, name) == s,
{
}

/// Saving to an id that no layer has inserts a layer under the next id,
/// which no layer has: owned by the caller, with the content given, no
/// name, and the flag set even where the caller passed `false`. Nothing
/// else changes.
pub proof fn law_save_layer_inserts(
    s: StoreView,
    sender: Identity,
    layer: int,
    base64: Seq<char>,
    force_update: bool,
)
    requires
        s.wf(),
        !s.layers.contains_key(layer),
    ensures
        !s.layers.contains_key(s.last_layer_id + 1),
        s.save_layer(sender, layer, base64, force_update).layers == s.layers.insert(
            s.last_layer_id + 1,
            LayerView {
                id: s.last_layer_id + 1,
                name: None,
                owner: sender,
                base64: Some(base64),
                force_update: true,
            },
        ),
        s.save_layer(sender, layer, base64, force_update).last_layer_id == s.last_layer_id + 1,
        s.save_layer(sender, layer, base64, force_update).pending == s.pending.push(
            inserted(
                RowView::Layer(
                    LayerView {
                        id: s.last_layer_id + 1,
                        name: None,
                        owner: sender,
                        base64: Some(base64),
                        force_update: true,
                    },
                ),
            ),
        ),
        s.save_layer(sender, layer, base64, force_update).users == s.users,
        s.save_layer(sender, layer, base64, force_update).commands == s.commands,
        s.save_layer(sender, layer, base64, force_update).last_command_id == s.last_command_id,
        s.save_layer(sender, layer, base64, force_update).wf(),
{
}

/// Saving to a layer that exists sets content and flag to exactly what was
/// given and the owner to the caller; id and name stay, and so does every
/// other row.
pub proof fn law_save_layer_updates(
    s: StoreView,
    sender: Identity,
    layer: int,
    base64: Seq<char>,
    force_update: bool,
)
    requires
        s.wf(),
        s.layers.contains_key(layer),
    ensures
        s.save_layer(sender, layer, base64, force_update).layers == s.layers.insert(
            layer,
            LayerView {
                id: layer,
                name: s.layers[layer].name,
                owner: sender,
                base64: Some(base64),
                force_update,
            },
        ),
        s.save_layer(sender, layer, base64, force_update).last_layer_id == s.last_layer_id,
        s.save_layer(sender, layer, base64, force_update).pending == s.pending.push(
            updated(
                RowView::Layer(
                    LayerView {
                        id: layer,
                        name: s.layers[layer].name,
                        owner: sender,
                        base64: Some(base64),
                        force_update,
                    },
                ),
            ),
        ),
        s.save_layer(sender, layer, base64, force_update).users == s.users,
        s.save_layer(sender, layer, base64, force_update).commands == s.commands,
        s.save_layer(sender, layer, base64, force_update).last_command_id == s.last_command_id,
        s.save_layer(sender, layer, base64, force_update).wf(),
{
}

/// Renaming a layer that is not there fails, the message holds the decimal
/// text of the id asked for, and nothing changes.
pub proof fn law_rename_layer_names_the_missing_id(
    s: StoreView,
    sender: Identity,
    layer: int,
    name: Seq<char>,
)
    requires
        !s.layers.contains_key(layer),
    ensures
        s.rename_layer_error(layer) == Some(unknown_layer_text(layer)),
        occurs_in(decimal(layer), unknown_layer_text(layer)),
        s.rename_layer(sender, layer, name) == s,
{
    let head = "Rename layer event for an unknown layer with id "@;
    let text = unknown_layer_text(layer);
    assert(text.subrange(head.len() as int, head.len() as int + decimal(layer).len()) =~= decimal(
        layer,
    ));
}

/// Renaming a layer that exists succeeds with any name, the empty one too:
/// name and owner are set, id, content and flag stay, and so does every
/// other row.
pub proof fn law_rename_layer_renames(s: StoreView, sender: Identity, layer: int, name: Seq<char>)
    requires
        s.wf(),
        s.layers.contains_key(layer),
    ensures
        s.rename_layer_error(layer) is None,
        s.rename_layer(sender, layer, name).layers == s.layers.insert(
            layer,
            LayerView {
                id: layer,
                name: Some(name),
                owner: sender,
                base64: s.layers[layer].base64,
                force_update: s.layers[layer].force_update,
            },
        ),
        s.rename_layer(sender, layer, name).pending == s.pending.push(
            updated(
                RowView::Layer(
                    LayerView {
                        id: layer,
                        name: Some(name),
                        owner: sender,
                        base64: s.layers[layer].base64,
                        force_update: s.layers[layer].force_update,
                    },
                ),
            ),
        ),
        s.rename_layer(sender, layer, name).users == s.users,
        s.rename_layer(sender, layer, name).commands == s.commands,
        s.rename_layer(sender, layer, name).wf(),
{
}

/// Sending commands to a layer that is not there fails, the message holds
/// the decimal text of the id asked for, and nothing is inserted.
pub proof fn law_send_command_names_the_missing_id(
    s: StoreView,
    sender: Identity,
    layer: int,
    commands: Seq<DrawCommandView>,
)
    requires
        !s.layers.contains_key(layer),
    ensures
        s.send_command_error(layer) == Some(missing_layer_text(layer)),
        occurs_in(decimal(layer), missing_layer_text(layer)),
        s.send_command(sender, layer, commands) == s,
{
    let head = "Layer with id "@;
    let text = missing_layer_text(layer);
    assert(text.subrange(head.len() as int, head.len() as int + decimal(layer).len()) =~= decimal(
        layer,
    ));
}

/// Sending commands to a layer that exists inserts exactly one batch,
/// under an id that no batch has or ever had: it is owned by the caller,
/// refers to the layer, and holds the commands as they came, in their
/// order. Every other row stays.
pub proof fn law_send_command_inserts_one_batch(
    s: StoreView,
    sender: Identity,
    layer: int,
    commands: Seq<DrawCommandView>,
)
    requires
        s.wf(),
        s.layers.contains_key(layer),
    ensures
        s.send_command_error(layer) is None,
        !s.commands.contains_key(s.last_command_id + 1),
        s.send_command(sender, layer, commands).commands == s.commands.insert(
            s.last_command_id + 1,
            CommandView { id: s.last_command_id + 1, layer, owner: sender, commands },
        ),
        s.send_command(sender, layer, commands).last_command_id == s.last_command_id + 1,
        s.send_command(sender, layer, commands).pending == s.pending.push(
            inserted(
                RowView::Command(
                    CommandView { id: s.last_command_id + 1, layer, owner: sender, commands },
                ),
            ),
        ),
        s.send_command(sender, layer, commands).layers == s.layers,
        s.send_command(sender, layer, commands).users == s.users,
        s.send_command(sender, layer, commands).wf(),
{
}

/// Deleting a layer twice leaves the store that deleting it once leaves,
/// pending changes included: the second call finds nothing to do.
pub proof fn law_delete_layer_twice_is_once(s: StoreView, layer: int)
    ensures
        !s.delete_layer(layer).layers.contains_key(layer),
        s.delete_layer(layer).delete_layer(layer) == s.delete_layer(layer),
{
}

/// Deleting a layer leaves the batches that were sent to it.
pub proof fn law_delete_layer_keeps_batches(s: StoreView, layer: int)
    ensures
        s.delete_layer(layer).commands == s.commands,
        s.delete_layer(layer).users == s.users,
        s.delete_layer(layer).layers == s.layers.remove(layer),
        s.delete_layer(layer).pending == if s.layers.contains_key(layer) {
            s.pending.push(deleted(RowView::Layer(s.layers[layer])))
        } else {
            s.pending
        },
{
}

/// When a client disconnects, each of its batches goes, each batch of
/// another client stays as it is, and none appears. User rows, the
/// client's own too, and layers are not touched.
pub proof fn law_disconnect_drops_own_batches(s: StoreView, sender: Identity)
    ensures
        forall|id: int| #[trigger]
            s.commands.contains_key(id) && s.commands[id].owner == sender
                ==> !s.client_disconnected(sender).commands.contains_key(id),
        forall|id: int| #[trigger]
            s.commands.contains_key(id) && s.commands[id].owner != sender ==> s.client_disconnected(
                sender,
            ).commands.contains_key(id) && s.client_disconnected(sender).commands[id]
                == s.commands[id],
        forall|id: int| #[trigger]
            s.client_disconnected(sender).commands.contains_key(id) ==> s.commands.contains_key(id),
        s.client_disconnected(sender).users == s.users,
        s.client_disconnected(sender).layers == s.layers,
        s.client_disconnected(sender).last_command_id == s.last_command_id,
        s.client_disconnected(sender).pending == s.pending + retractions(
            s.commands,
            sender,
            s.last_command_id,
        ),
        s.wf() ==> s.client_disconnected(sender).wf(),
{
}

/// Connecting brings the user row online and keeps its name; a first
/// connection makes the row, without a name. Connecting again changes no
/// table.
pub proof fn law_connect_marks_online(s: StoreView, sender: Identity)
    requires
        s.wf(),
    ensures
        s.client_connected(sender).users.contains_key(sender),
        s.client_connected(sender).users[sender].online,
        s.client_connected(sender).users[sender].identity == sender,
        s.client_connected(sender).users[sender].name == if s.users.contains_key(sender) {
            s.users[sender].name
        } else {
            None
        },
        s.client_connected(sender).client_connected(sender).users == s.client_connected(
            sender,
        ).users,
        s.client_connected(sender).wf(),
{
}

/// A call that fails leaves the store as it was, so no subscriber hears of
/// it.
pub proof fn law_failed_call_changes_nothing(s: StoreView, sender: Identity, call: CallView)
    requires
        s.step_error(sender, call) is Some,
    ensures
        s.step(sender, call) == s,
{
}

/// The changes of a call come behind those that were pending before it:
/// subscribers hear of calls in the order in which they ran.
pub proof fn law_changes_keep_their_order(s: StoreView, sender: Identity, call: CallView)
    ensures
        s.pending.is_prefix_of(s.step(sender, call).pending),
{
}

/// No call deletes a user row.
pub proof fn law_users_stay(s: StoreView, sender: Identity, call: CallView)
    ensures
        forall|who: Identity| #[trigger]
            s.users.contains_key(who) ==> s.step(sender, call).users.contains_key(who),
{
}

/// No call changes a batch that it leaves in the table.
pub proof fn law_batches_keep_their_value(s: StoreView, sender: Identity, call: CallView)
    requires
        s.wf(),
    ensures
        forall|id: int| #[trigger]
            s.step(sender, call).commands.contains_key(id) && s.commands.contains_key(id) ==> s.step(
                sender,
                call,
            ).commands[id] == s.commands[id],
{
}

/// A user row, once made, is there for good.
pub proof fn law_users_are_never_deleted(
    s: StoreView,
    trace: Seq<(Identity, CallView)>,
    who: Identity,
)
    requires
        s.users.contains_key(who),
    ensures
        s.run(trace).users.contains_key(who),
    decreases trace.len(),
{
    if trace.len() > 0 {
        law_users_are_never_deleted(s, trace.drop_last(), who);
        law_users_stay(s.run(trace.drop_last()), trace.last().0, trace.last().1);
    }
}

/// A batch is never changed in place: as long as it is in the table, it
/// says what it said when it came.
pub proof fn law_batches_are_never_changed(
    s: StoreView,
    trace: Seq<(Identity, CallView)>,
    id: int,
)
    requires
        s.wf(),
        s.commands.contains_key(id),
        s.run(trace).commands.contains_key(id),
    ensures
        s.run(trace).commands[id] == s.commands[id],
    decreases trace.len(),
{
    if trace.len() > 0 {
        let before = s.run(trace.drop_last());
        law_ids_are_never_reused(s, trace.drop_last());
        law_ids_rise(before, trace.last().0, trace.last().1);
        law_batches_keep_their_value(before, trace.last().0, trace.last().1);
        if before.commands.contains_key(id) {
            law_batches_are_never_changed(s, trace.drop_last(), id);
        }
    }
}

/// A batch can only come to a layer that is there, so whatever happens to
/// the layer later, the id that a batch refers to is one that was handed
/// out.
pub proof fn law_batches_refer_to_known_layers(s: StoreView, trace: Seq<(Identity, CallView)>, id: int)
    requires
        StoreView::empty().run(trace) == s,
        s.commands.contains_key(id),
    ensures
        1 <= s.commands[id].layer <= s.last_layer_id,
{
    law_ids_are_never_reused(StoreView::empty(), trace);
}

/// One call keeps the store well formed, lets neither counter fall, and
/// gives a row that it inserts the id after the last one handed out: an
/// id above every id that the table has used so far.
pub proof fn law_ids_rise(s: StoreView, sender: Identity, call: CallView)
    requires
        s.wf(),
    ensures
        s.step(sender, call).wf(),
        s.last_layer_id <= s.step(sender, call).last_layer_id <= s.last_layer_id + 1,
        s.last_command_id <= s.step(sender, call).last_command_id <= s.last_command_id + 1,
        forall|id: int| #[trigger]
            s.step(sender, call).layers.contains_key(id) && !s.layers.contains_key(id) ==> id
                == s.last_layer_id + 1 && s.step(sender, call).last_layer_id == id,
        forall|id: int| #[trigger]
            s.step(sender, call).commands.contains_key(id) && !s.commands.contains_key(id) ==> id
                == s.last_command_id + 1 && s.step(sender, call).last_command_id == id,
{
}

/// However inserts and deletes follow each other, no id is used twice: a
/// row that stands under an id handed out before the calls of `trace`
/// stood there before them. An id whose row was deleted stays free for
/// good.
pub proof fn law_ids_are_never_reused(s: StoreView, trace: Seq<(Identity, CallView)>)
    requires
        s.wf(),
    ensures
        s.run(trace).wf(),
        s.last_layer_id <= s.run(trace).last_layer_id,
        s.last_command_id <= s.run(trace).last_command_id,
        forall|id: int| #[trigger]
            s.run(trace).layers.contains_key(id) && id <= s.last_layer_id ==> s.layers.contains_key(
                id,
            ),
        forall|id: int| #[trigger]
            s.run(trace).commands.contains_key(id) && id <= s.last_command_id
                ==> s.commands.contains_key(id),
    decreases trace.len(),
{
    if trace.len() > 0 {
        let before = s.run(trace.drop_last());
        law_ids_are_never_reused(s, trace.drop_last());
        law_ids_rise(before, trace.last().0, trace.last().1);
    }
}

/// A call through the server leaves it well formed, takes the store the
/// step that the call describes, and moves what the step committed from
/// the store to the subscribers.
pub proof fn law_server_call_steps_the_store(s: ServerView, sender: Identity, call: CallView)
    requires
        s.wf(),
    ensures
        s.call(sender, call).wf(),
        s.call(sender, call).store.users == s.store.step(sender, call).users,
        s.call(sender, call).store.layers == s.store.step(sender, call).layers,
        s.call(sender, call).store.commands == s.store.step(sender, call).commands,
        s.call(sender, call).store.last_layer_id == s.store.step(sender, call).last_layer_id,
        s.call(sender, call).store.last_command_id == s.store.step(sender, call).last_command_id,
        s.call(sender, call).subscribers.last_ticket == s.subscribers.last_ticket,
{
    law_ids_rise(s.store, sender, call);
}

/// Every subscriber, and nobody else, is told of what a call committed:
/// the changes of the call come behind what the subscriber had not
/// collected before.
pub proof fn law_every_subscriber_is_told(
    s: ServerView,
    sender: Identity,
    call: CallView,
    ticket: int,
)
    requires
        s.wf(),
    ensures
        s.call(sender, call).subscribers.outboxes.contains_key(ticket)
            == s.subscribers.outboxes.contains_key(ticket),
        s.subscribers.outboxes.contains_key(ticket) ==> s.call(
            sender,
            call,
        ).subscribers.outboxes[ticket] == s.subscribers.outboxes[ticket] + s.store.step(
            sender,
            call,
        ).pending,
{
}

/// Nothing is published for a call that fails: the server stays as it
/// was.
pub proof fn law_failed_call_publishes_nothing(s: ServerView, sender: Identity, call: CallView)
    requires
        s.wf(),
        s.store.step_error(sender, call) is Some,
    ensures
        s.call(sender, call) == s,
{
    let t = s.call(sender, call);
    assert(t.subscribers.outboxes =~= s.subscribers.outboxes);
}

/// What two calls commit reaches a subscriber in the order of the calls:
/// first what the first call committed, then what the second did.
pub proof fn law_changes_arrive_in_call_order(
    s: ServerView,
    first_sender: Identity,
    first: CallView,
    second_sender: Identity,
    second: CallView,
    ticket: int,
)
    requires
        s.wf(),
        s.subscribers.outboxes.contains_key(ticket),
    ensures
        s.call(first_sender, first).call(second_sender, second).subscribers.outboxes.contains_key(
            ticket,
        ),
        s.call(first_sender, first).call(second_sender, second).subscribers.outboxes[ticket]
            == s.subscribers.outboxes[ticket] + s.store.step(first_sender, first).pending + s.call(
            first_sender,
            first,
        ).store.step(second_sender, second).pending,
{
}

/// A subscriber is told of nothing that was committed before it came.
pub proof fn law_a_new_subscriber_starts_empty(s: ServerView)
    requires
        s.wf(),
    ensures
        !s.subscribers.outboxes.contains_key(s.subscribers.last_ticket + 1),
        s.subscribers.subscribe().outboxes[s.subscribers.last_ticket + 1] == Seq::<ChangeView>::empty(),
        s.subscribers.subscribe().wf(),
{
}

} // verus!
