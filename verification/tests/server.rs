use canvas_server::{
    Call, Change, Command, DrawCommand, Identity, Layer, Operation, Row, Server, Subscribers, User,
};

fn ann() -> Identity {
    Identity::from_words(3, 1)
}

fn ben() -> Identity {
    Identity::from_words(3, 2)
}

fn mark() -> DrawCommand {
    DrawCommand {
        command_type: "mark".to_string(),
        blend_mode: None,
        pos: None,
        stroke_style: None,
        start_width: None,
        end_width: None,
    }
}

fn layer_inserted(id: i32, owner: Identity) -> Change {
    Change {
        op: Operation::Insert,
        row: Row::Layer(Layer { id, name: None, owner, base64: None, force_update: true }),
    }
}

#[test]
fn subscribers_get_rising_tickets() {
    let mut subscribers = Subscribers::new();
    assert!(subscribers.tickets_left());
    assert_eq!(subscribers.subscribe(), 1);
    assert_eq!(subscribers.subscribe(), 2);
    subscribers.unsubscribe(2);
    subscribers.unsubscribe(1);
    assert_eq!(subscribers.subscribe(), 3);
}

#[test]
fn publish_reaches_every_subscriber_in_order() {
    let mut subscribers = Subscribers::new();
    let first = subscribers.subscribe();
    let second = subscribers.subscribe();
    subscribers.publish(&vec![layer_inserted(1, ann()), layer_inserted(2, ben())]);
    subscribers.publish(&vec![layer_inserted(3, ann())]);
    let expected = vec![layer_inserted(1, ann()), layer_inserted(2, ben()), layer_inserted(3, ann())];
    assert_eq!(subscribers.collect(first), expected);
    assert_eq!(subscribers.collect(second), expected);
}

#[test]
fn collect_leaves_nothing_waiting() {
    let mut subscribers = Subscribers::new();
    let ticket = subscribers.subscribe();
    subscribers.publish(&vec![layer_inserted(1, ann())]);
    assert_eq!(subscribers.collect(ticket).len(), 1);
    assert!(subscribers.collect(ticket).is_empty());
    subscribers.publish(&vec![layer_inserted(2, ann())]);
    assert_eq!(subscribers.collect(ticket), vec![layer_inserted(2, ann())]);
}

#[test]
fn collect_on_an_unknown_ticket_hands_out_nothing() {
    let mut subscribers = Subscribers::new();
    let ticket = subscribers.subscribe();
    subscribers.publish(&vec![layer_inserted(1, ann())]);
    assert!(subscribers.collect(ticket + 1).is_empty());
    assert!(subscribers.collect(0).is_empty());
    assert_eq!(subscribers.collect(ticket).len(), 1);
}

#[test]
fn a_subscriber_hears_only_of_what_comes_after_it() {
    let mut subscribers = Subscribers::new();
    let early = subscribers.subscribe();
    subscribers.publish(&vec![layer_inserted(1, ann())]);
    let late = subscribers.subscribe();
    subscribers.publish(&vec![layer_inserted(2, ann())]);
    assert_eq!(
        subscribers.collect(early),
        vec![layer_inserted(1, ann()), layer_inserted(2, ann())]
    );
    assert_eq!(subscribers.collect(late), vec![layer_inserted(2, ann())]);
}

#[test]
fn unsubscribe_drops_the_outbox() {
    let mut subscribers = Subscribers::new();
    let gone = subscribers.subscribe();
    let stays = subscribers.subscribe();
    subscribers.publish(&vec![layer_inserted(1, ann())]);
    subscribers.unsubscribe(gone);
    subscribers.unsubscribe(gone);
    subscribers.unsubscribe(77);
    subscribers.publish(&vec![layer_inserted(2, ann())]);
    assert!(subscribers.collect(gone).is_empty());
    assert_eq!(subscribers.collect(stays).len(), 2);
}

#[test]
fn publish_of_nothing_changes_nothing() {
    let mut subscribers = Subscribers::new();
    let ticket = subscribers.subscribe();
    subscribers.publish(&Vec::new());
    assert!(subscribers.collect(ticket).is_empty());
}

#[test]
fn server_publishes_what_each_call_commits() {
    let mut server = Server::new();
    let ticket = server.subscribe();
    assert_eq!(server.call(ann(), Call::ClientConnected), Ok(()));
    assert_eq!(server.call(ann(), Call::CreateLayer), Ok(()));
    assert_eq!(server.call(ben(), Call::SendCommand { layer: 1, commands: vec![mark()] }), Ok(()));
    assert_eq!(server.call(ben(), Call::ClientDisconnected), Ok(()));
    assert_eq!(
        server.collect(ticket),
        vec![
            Change {
                op: Operation::Insert,
                row: Row::User(User { identity: ann(), name: None, online: true }),
            },
            layer_inserted(1, ann()),
            Change {
                op: Operation::Insert,
                row: Row::Command(Command { id: 1, layer: 1, owner: ben(), commands: vec![mark()] }),
            },
            Change {
                op: Operation::Delete,
                row: Row::Command(Command { id: 1, layer: 1, owner: ben(), commands: vec![mark()] }),
            },
        ]
    );
    assert!(server.collect(ticket).is_empty());
}

#[test]
fn server_publishes_nothing_for_a_failed_call() {
    let mut server = Server::new();
    let ticket = server.subscribe();
    assert_eq!(
        server.call(ann(), Call::SetName { name: "Ann".to_string() }),
        Err("Cannot set name for unknown user".to_string())
    );
    assert_eq!(
        server.call(ann(), Call::SetName { name: String::new() }),
        Err("Names must not be empty".to_string())
    );
    assert_eq!(
        server.call(ann(), Call::RenameLayer { layer: 4, name: "x".to_string() }),
        Err("Rename layer event for an unknown layer with id 4".to_string())
    );
    assert_eq!(
        server.call(ann(), Call::SendCommand { layer: 4, commands: vec![mark()] }),
        Err("Layer with id 4 is not exist".to_string())
    );
    assert!(server.collect(ticket).is_empty());
    assert_eq!(server, {
        let mut fresh = Server::new();
        fresh.subscribe();
        fresh
    });
}

#[test]
fn server_lets_the_store_be_read() {
    let mut server = Server::new();
    assert!(server.tickets_left());
    assert!(server.has_room_for(&Call::CreateLayer));
    assert!(server.has_room_for(&Call::DeleteLayer { layer: 1 }));
    assert_eq!(server.call(ann(), Call::CreateLayer), Ok(()));
    assert_eq!(
        server.store().find_layer(1),
        Some(Layer { id: 1, name: None, owner: ann(), base64: None, force_update: true })
    );
    assert_eq!(server.store().find_user(ann()), None);
}

#[test]
fn server_tells_late_and_gone_subscribers_apart() {
    let mut server = Server::new();
    let early = server.subscribe();
    assert_eq!(server.call(ann(), Call::CreateLayer), Ok(()));
    let late = server.subscribe();
    server.unsubscribe(early);
    assert_eq!(server.call(ann(), Call::DeleteLayer { layer: 1 }), Ok(()));
    assert!(server.collect(early).is_empty());
    assert_eq!(
        server.collect(late),
        vec![Change {
            op: Operation::Delete,
            row: Row::Layer(Layer { id: 1, name: None, owner: ann(), base64: None, force_update: true }),
        }]
    );
}

#[test]
fn has_room_for_holds_on_a_fresh_store() {
    let store = canvas_server::Store::new();
    assert!(canvas_server::has_room_for(&store, &Call::CreateLayer));
    assert!(canvas_server::has_room_for(
        &store,
        &Call::SaveLayer { layer: 9, base64: String::new(), force_update: false }
    ));
    assert!(canvas_server::has_room_for(&store, &Call::SendCommand { layer: 9, commands: Vec::new() }));
    assert!(canvas_server::has_room_for(&store, &Call::ClientDisconnected));
    assert!(!store.has_layer(9));
}
