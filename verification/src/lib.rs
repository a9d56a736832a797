//! The state machine behind a shared drawing canvas: users, layers and
//! batches of draw commands, changed only by named, atomic reducers.
//!
//! `model` says what a store is and what each reducer makes of it, as
//! mathematics; `store` holds the tables; `rules` decides, row by row;
//! `reducers` puts the two together; `notify` and `server` carry what was
//! committed to the subscribers; `laws` proves what follows.

pub mod assoc;
pub mod changes;
pub mod decimal;
pub mod identity;
pub mod laws;
pub mod model;
pub mod notify;
pub mod reducers;
pub mod rows;
pub mod rules;
pub mod server;
pub mod store;

pub use changes::{Change, Operation, Row};
pub use identity::Identity;
pub use notify::Subscribers;
pub use reducers::{
    apply, client_connected, client_disconnected, create_layer, delete_layer, has_room_for,
    rename_layer, save_layer, send_command, set_name, Call,
};
pub use rows::{Command, DrawCommand, Layer, Point, StrokeStyle, User};
pub use rules::{validate_name, Write};
pub use server::Server;
pub use store::Store;
