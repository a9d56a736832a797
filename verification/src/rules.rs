//! What each reducer decides, from the row it found to the row it writes.
//! Nothing here touches a table: whoever holds the tables looks the row
//! up, asks, and writes what comes back.

use crate::decimal::push_decimal;
use crate::identity::Identity;
use crate::model::{
    empty_name_text, first_seen, missing_layer_text, new_batch, new_layer, renamed, saved_over,
    unknown_layer_text, unknown_user_text,
};
use crate::rows::{batch_of, Command, DrawCommand, Layer, User, UserView};
use vstd::prelude::*;
use vstd::string::*;

verus! {

/// The message of a failed call, if it failed.
pub open spec fn error_of<T>(r: Result<T, String>) -> Option<Seq<char>> {
    match r {
        Ok(_) => None,
        Err(why) => Some(why@),
    }
}

/// A write to a table: a new row, or a row in place of the one that has
/// the same key.
#[derive(Debug, PartialEq, Eq)]
pub enum Write<R> {
    Insert(R),
    Update(R),
}

/// Accepts a name that is not empty and hands it back; an empty one is a
/// validation error.
pub fn validate_name(name: String) -> (r: Result<String, String>)
    ensures
        match r {
            Ok(kept) => name@.len() > 0 && kept@ == name@,
            Err(why) => name@.len() == 0 && why@ == empty_name_text(),
        },
{
    if name.as_str().is_empty() {
        Err(String::from_str("Names must not be empty"))
    } else {
        Ok(name)
    }
}

/// `set_name`: the caller's row with the new name, if the name is valid
/// and the caller has a row. The name is judged first.
pub fn decide_set_name(found: Option<User>, name: String) -> (r: Result<User, String>)
    ensures
        match r {
            Ok(row) => {
                &&& name@.len() > 0
                &&& found matches Some(user) && row@ == (UserView { name: Some(name@), ..user@ })
            },
            Err(why) => if name@.len() == 0 {
                why@ == empty_name_text()
            } else {
                found is None && why@ == unknown_user_text()
            },
        },
{
    match validate_name(name) {
        Ok(kept) => match found {
            Some(user) => Ok(User { identity: user.identity, name: Some(kept), online: user.online }),
            None => Err(String::from_str("Cannot set name for unknown user")),
        },
        Err(why) => Err(why),
    }
}

/// `save_layer`: over a layer that exists, the content and the flag as
/// given; else a new layer with the content, and the flag set whatever was
/// asked for.
pub fn decide_save_layer(
    found: Option<Layer>,
    sender: Identity,
    base64: String,
    force_update: bool,
) -> (w: Write<Layer>)
    ensures
        match w {
            Write::Update(row) => found matches Some(active) && row@ == saved_over(
                active@,
                sender,
                base64@,
                force_update,
            ),
            Write::Insert(row) => found is None && row@ == new_layer(sender, Some(base64@)),
        },
{
    match found {
        Some(active) => Write::Update(
            Layer {
                id: active.id,
                name: active.name,
                owner: sender,
                base64: Some(base64),
                force_update,
            },
        ),
        None => Write::Insert(
            Layer { id: 0, name: None, owner: sender, base64: Some(base64), force_update: true },
        ),
    }
}

/// `create_layer`: an empty layer of `sender`, marked for a full replace.
pub fn blank_layer(sender: Identity) -> (row: Layer)
    ensures
        row@ == new_layer(sender, None),
{
    Layer { id: 0, name: None, owner: sender, base64: None, force_update: true }
}

/// `rename_layer`: the layer under its new name and owner, or the
/// not-found error that names the id `layer`. Any name will do, the empty
/// one too.
pub fn decide_rename_layer(found: Option<Layer>, layer: i32, sender: Identity, name: String) -> (r:
    Result<Layer, String>)
    ensures
        match r {
            Ok(row) => found matches Some(active) && row@ == renamed(active@, sender, name@),
            Err(why) => found is None && why@ == unknown_layer_text(layer as int),
        },
{
    match found {
        Some(active) => Ok(
            Layer {
                id: active.id,
                name: Some(name),
                owner: sender,
                base64: active.base64,
                force_update: active.force_update,
            },
        ),
        None => {
            let mut why = String::from_str("Rename layer event for an unknown layer with id ");
            push_decimal(&mut why, layer);
            Err(why)
        },
    }
}

/// `send_command`: the batch to insert, commands as they came, or the
/// not-found error that names the id `layer`.
pub fn decide_send_command(
    layer_found: bool,
    layer: i32,
    sender: Identity,
    commands: Vec<DrawCommand>,
) -> (r: Result<Command, String>)
    ensures
        match r {
            Ok(row) => layer_found && row@ == new_batch(layer as int, sender, batch_of(commands@)),
            Err(why) => !layer_found && why@ == missing_layer_text(layer as int),
        },
{
    if layer_found {
        Ok(Command { id: 0, layer, owner: sender, commands })
    } else {
        let mut why = String::from_str("Layer with id ");
        push_decimal(&mut why, layer);
        why.append(" is not exist");
        Err(why)
    }
}

/// `client_connected`: a known user comes online and keeps the name; an
/// unknown one gets a row without a name.
pub fn decide_connect(found: Option<User>, sender: Identity) -> (w: Write<User>)
    ensures
        match w {
            Write::Update(row) => found matches Some(user) && row@ == (UserView {
                online: true,
                ..user@
            }),
            Write::Insert(row) => found is None && row@ == first_seen(sender),
        },
{
    match found {
        Some(user) => Write::Update(User { identity: user.identity, name: user.name, online: true }),
        None => Write::Insert(User { identity: sender, name: None, online: true }),
    }
}

} // verus!
