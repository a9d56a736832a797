use canvas_server::{
    client_connected, client_disconnected, create_layer, delete_layer, rename_layer, save_layer,
    send_command, set_name, Command, DrawCommand, Identity, Layer, Point, Store, User,
};

fn alice() -> Identity {
    Identity::from_words(0, 1)
}

fn bob() -> Identity {
    Identity::from_words(0, 2)
}

fn carol() -> Identity {
    Identity::from_words(1, 0)
}

fn dot(x: i32, y: i32) -> DrawCommand {
    DrawCommand {
        command_type: "dot".to_string(),
        blend_mode: None,
        pos: Some(Point { x, y }),
        stroke_style: None,
        start_width: None,
        end_width: Some(x),
    }
}

#[test]
fn new_store_is_empty() {
    let mut store = Store::new();
    assert_eq!(store.find_user(alice()), None);
    assert_eq!(store.find_layer(1), None);
    assert_eq!(store.find_command(1), None);
    assert!(store.layer_ids_left());
    assert!(store.command_ids_left());
    assert!(store.take_changes().is_empty());
}

#[test]
fn set_name_names_a_connected_user() {
    let mut store = Store::new();
    client_connected(&mut store, alice());
    assert_eq!(set_name(&mut store, alice(), "Ada".to_string()), Ok(()));
    assert_eq!(
        store.find_user(alice()),
        Some(User { identity: alice(), name: Some("Ada".to_string()), online: true })
    );
    assert_eq!(set_name(&mut store, alice(), "A".to_string()), Ok(()));
    assert_eq!(store.find_user(alice()).unwrap().name, Some("A".to_string()));
}

#[test]
fn set_name_leaves_other_users_alone() {
    let mut store = Store::new();
    client_connected(&mut store, alice());
    client_connected(&mut store, bob());
    assert_eq!(set_name(&mut store, bob(), "Bob".to_string()), Ok(()));
    assert_eq!(store.find_user(alice()), Some(User { identity: alice(), name: None, online: true }));
    assert_eq!(
        store.find_user(bob()),
        Some(User { identity: bob(), name: Some("Bob".to_string()), online: true })
    );
}

#[test]
fn set_name_refuses_the_empty_name_and_changes_nothing() {
    let mut store = Store::new();
    client_connected(&mut store, alice());
    assert_eq!(set_name(&mut store, alice(), "Ada".to_string()), Ok(()));
    let before = store.clone();
    assert_eq!(
        set_name(&mut store, alice(), String::new()),
        Err("Names must not be empty".to_string())
    );
    assert_eq!(store, before);
}

#[test]
fn set_name_fails_for_an_unknown_user() {
    let mut store = Store::new();
    client_connected(&mut store, alice());
    let before = store.clone();
    assert_eq!(
        set_name(&mut store, bob(), "Bob".to_string()),
        Err("Cannot set name for unknown user".to_string())
    );
    assert_eq!(
        set_name(&mut store, bob(), "x".to_string()),
        Err("Cannot set name for unknown user".to_string())
    );
    assert_eq!(store, before);
    assert_eq!(store.find_user(bob()), None);
}

#[test]
fn set_name_with_an_empty_name_fails_on_validation_for_an_unknown_user() {
    let mut store = Store::new();
    assert_eq!(
        set_name(&mut store, bob(), String::new()),
        Err("Names must not be empty".to_string())
    );
    assert_eq!(store, Store::new());
}

#[test]
fn save_layer_on_a_missing_id_inserts_under_a_fresh_id() {
    let mut store = Store::new();
    save_layer(&mut store, alice(), 40, "QUJD".to_string(), false);
    assert_eq!(store.find_layer(40), None);
    assert_eq!(
        store.find_layer(1),
        Some(Layer {
            id: 1,
            name: None,
            owner: alice(),
            base64: Some("QUJD".to_string()),
            force_update: true,
        })
    );
    save_layer(&mut store, bob(), 0, String::new(), true);
    assert_eq!(
        store.find_layer(2),
        Some(Layer {
            id: 2,
            name: None,
            owner: bob(),
            base64: Some(String::new()),
            force_update: true,
        })
    );
    assert_eq!(store.find_layer(0), None);
    assert_eq!(store.find_layer(3), None);
}

#[test]
fn save_layer_on_an_existing_id_updates_content_flag_and_owner() {
    let mut store = Store::new();
    create_layer(&mut store, alice());
    assert_eq!(rename_layer(&mut store, alice(), 1, "sky".to_string()), Ok(()));
    save_layer(&mut store, bob(), 1, "QUJD".to_string(), false);
    assert_eq!(
        store.find_layer(1),
        Some(Layer {
            id: 1,
            name: Some("sky".to_string()),
            owner: bob(),
            base64: Some("QUJD".to_string()),
            force_update: false,
        })
    );
    save_layer(&mut store, carol(), 1, "REVG".to_string(), true);
    assert_eq!(
        store.find_layer(1),
        Some(Layer {
            id: 1,
            name: Some("sky".to_string()),
            owner: carol(),
            base64: Some("REVG".to_string()),
            force_update: true,
        })
    );
    assert_eq!(store.find_layer(2), None);
}

#[test]
fn create_layer_inserts_an_empty_layer() {
    let mut store = Store::new();
    create_layer(&mut store, alice());
    create_layer(&mut store, bob());
    assert_eq!(
        store.find_layer(1),
        Some(Layer { id: 1, name: None, owner: alice(), base64: None, force_update: true })
    );
    assert_eq!(
        store.find_layer(2),
        Some(Layer { id: 2, name: None, owner: bob(), base64: None, force_update: true })
    );
}

#[test]
fn rename_layer_sets_name_and_owner_only() {
    let mut store = Store::new();
    save_layer(&mut store, alice(), 1, "QUJD".to_string(), false);
    save_layer(&mut store, alice(), 1, "QUJD".to_string(), false);
    assert_eq!(rename_layer(&mut store, bob(), 1, "sea".to_string()), Ok(()));
    assert_eq!(
        store.find_layer(1),
        Some(Layer {
            id: 1,
            name: Some("sea".to_string()),
            owner: bob(),
            base64: Some("QUJD".to_string()),
            force_update: false,
        })
    );
}

#[test]
fn rename_layer_takes_the_empty_name() {
    let mut store = Store::new();
    create_layer(&mut store, alice());
    assert_eq!(rename_layer(&mut store, alice(), 1, String::new()), Ok(()));
    assert_eq!(store.find_layer(1).unwrap().name, Some(String::new()));
}

#[test]
fn rename_layer_on_a_missing_id_names_the_id() {
    let mut store = Store::new();
    create_layer(&mut store, alice());
    let before = store.clone();
    let err = rename_layer(&mut store, bob(), 31, "sea".to_string()).unwrap_err();
    assert_eq!(err, "Rename layer event for an unknown layer with id 31");
    assert!(err.contains("31"));
    let err = rename_layer(&mut store, bob(), -2, "sea".to_string()).unwrap_err();
    assert!(err.contains("-2"));
    assert_eq!(store, before);
}

#[test]
fn send_command_inserts_one_batch() {
    let mut store = Store::new();
    create_layer(&mut store, alice());
    let batch = vec![dot(1, 2), dot(3, 4), dot(1, 2)];
    assert_eq!(send_command(&mut store, bob(), 1, batch), Ok(()));
    assert_eq!(
        store.find_command(1),
        Some(Command { id: 1, layer: 1, owner: bob(), commands: vec![dot(1, 2), dot(3, 4), dot(1, 2)] })
    );
    assert_eq!(store.find_command(2), None);
    assert_eq!(send_command(&mut store, alice(), 1, Vec::new()), Ok(()));
    assert_eq!(
        store.find_command(2),
        Some(Command { id: 2, layer: 1, owner: alice(), commands: Vec::new() })
    );
}

#[test]
fn send_command_on_a_missing_layer_names_the_id_and_inserts_nothing() {
    let mut store = Store::new();
    create_layer(&mut store, alice());
    let before = store.clone();
    let err = send_command(&mut store, bob(), 5, vec![dot(0, 0)]).unwrap_err();
    assert_eq!(err, "Layer with id 5 is not exist");
    assert!(err.contains("5"));
    assert_eq!(store, before);
    assert_eq!(store.find_command(1), None);
}

#[test]
fn batches_outlive_their_layer() {
    let mut store = Store::new();
    create_layer(&mut store, alice());
    assert_eq!(send_command(&mut store, bob(), 1, vec![dot(1, 1)]), Ok(()));
    delete_layer(&mut store, 1);
    assert_eq!(store.find_layer(1), None);
    assert_eq!(store.find_command(1).unwrap().layer, 1);
    assert_eq!(
        send_command(&mut store, bob(), 1, vec![dot(2, 2)]),
        Err("Layer with id 1 is not exist".to_string())
    );
}

#[test]
fn delete_layer_twice_is_the_same_as_once() {
    let mut store = Store::new();
    create_layer(&mut store, alice());
    create_layer(&mut store, bob());
    delete_layer(&mut store, 1);
    let once = store.clone();
    delete_layer(&mut store, 1);
    assert_eq!(store, once);
    assert_eq!(store.find_layer(1), None);
    assert!(store.find_layer(2).is_some());
}

#[test]
fn delete_layer_on_a_missing_id_is_silent() {
    let mut store = Store::new();
    delete_layer(&mut store, 9);
    assert_eq!(store, Store::new());
}

#[test]
fn client_connected_makes_the_row_once() {
    let mut store = Store::new();
    client_connected(&mut store, alice());
    assert_eq!(store.find_user(alice()), Some(User { identity: alice(), name: None, online: true }));
    assert_eq!(set_name(&mut store, alice(), "Ada".to_string()), Ok(()));
    client_connected(&mut store, alice());
    assert_eq!(
        store.find_user(alice()),
        Some(User { identity: alice(), name: Some("Ada".to_string()), online: true })
    );
    assert_eq!(store.find_user(bob()), None);
}

#[test]
fn client_disconnected_removes_the_batches_of_that_client_only() {
    let mut store = Store::new();
    client_connected(&mut store, alice());
    client_connected(&mut store, bob());
    create_layer(&mut store, alice());
    assert_eq!(send_command(&mut store, bob(), 1, vec![dot(1, 0)]), Ok(()));
    assert_eq!(send_command(&mut store, alice(), 1, vec![dot(2, 0)]), Ok(()));
    assert_eq!(send_command(&mut store, bob(), 1, vec![dot(3, 0)]), Ok(()));
    assert_eq!(send_command(&mut store, bob(), 1, vec![dot(4, 0)]), Ok(()));
    assert_eq!(send_command(&mut store, carol(), 1, vec![dot(5, 0)]), Ok(()));
    client_disconnected(&mut store, bob());
    assert_eq!(store.find_command(1), None);
    assert_eq!(
        store.find_command(2),
        Some(Command { id: 2, layer: 1, owner: alice(), commands: vec![dot(2, 0)] })
    );
    assert_eq!(store.find_command(3), None);
    assert_eq!(store.find_command(4), None);
    assert_eq!(
        store.find_command(5),
        Some(Command { id: 5, layer: 1, owner: carol(), commands: vec![dot(5, 0)] })
    );
    assert_eq!(store.find_user(bob()), Some(User { identity: bob(), name: None, online: true }));
    assert!(store.find_layer(1).is_some());
}

#[test]
fn client_disconnected_without_batches_changes_nothing() {
    let mut store = Store::new();
    client_connected(&mut store, alice());
    create_layer(&mut store, alice());
    assert_eq!(send_command(&mut store, alice(), 1, vec![dot(1, 0)]), Ok(()));
    let before = store.clone();
    client_disconnected(&mut store, bob());
    assert_eq!(store, before);
}

#[test]
fn ids_rise_and_are_never_used_again() {
    let mut store = Store::new();
    for round in 1..=5 {
        create_layer(&mut store, alice());
        assert_eq!(store.find_layer(round).unwrap().id, round);
        assert_eq!(send_command(&mut store, bob(), round, vec![dot(round, round)]), Ok(()));
        assert_eq!(store.find_command(round).unwrap().id, round);
        delete_layer(&mut store, round);
        client_disconnected(&mut store, bob());
        assert_eq!(store.find_layer(round), None);
        assert_eq!(store.find_command(round), None);
    }
    save_layer(&mut store, alice(), 3, "QUJD".to_string(), false);
    assert_eq!(store.find_layer(3), None);
    assert_eq!(store.find_layer(6).unwrap().id, 6);
    assert_eq!(send_command(&mut store, carol(), 6, Vec::new()), Ok(()));
    assert_eq!(store.find_command(6).unwrap().owner, carol());
    for old in 1..=5 {
        assert_eq!(store.find_layer(old), None);
        assert_eq!(store.find_command(old), None);
    }
}

#[test]
fn a_copy_of_a_store_is_a_store_of_its_own() {
    let mut store = Store::new();
    create_layer(&mut store, alice());
    let copy = store.clone();
    assert_eq!(copy, store);
    delete_layer(&mut store, 1);
    assert!(copy.find_layer(1).is_some());
    assert_eq!(store.find_layer(1), None);
}
