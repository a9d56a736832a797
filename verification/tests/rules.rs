use canvas_server::rules::{
    blank_layer, decide_connect, decide_rename_layer, decide_save_layer, decide_send_command,
    decide_set_name,
};
use canvas_server::{Command, DrawCommand, Identity, Layer, Point, StrokeStyle, User, Write};

fn alice() -> Identity {
    Identity::from_words(0, 0xA11CE)
}

fn bob() -> Identity {
    Identity::from_words(7, 0xB0B)
}

fn stroke() -> DrawCommand {
    DrawCommand {
        command_type: "stroke".to_string(),
        blend_mode: Some("multiply".to_string()),
        pos: Some(Point { x: 3, y: -4 }),
        stroke_style: Some(StrokeStyle {
            width_bits: 1.5f32.to_bits(),
            cap: "round".to_string(),
            color: 0x00ff_8800,
            alpha_bits: 0.25f32.to_bits(),
        }),
        start_width: Some(2),
        end_width: None,
    }
}

#[test]
fn identity_from_words_keeps_both_words() {
    let id = Identity::from_words(5, 9);
    assert_eq!(id.hi, 5);
    assert_eq!(id.lo, 9);
    assert_eq!(id, Identity { hi: 5, lo: 9 });
}

#[test]
fn identity_same_compares_both_words() {
    assert!(alice().same(&alice()));
    assert!(!alice().same(&bob()));
    assert!(!Identity::from_words(1, 2).same(&Identity::from_words(2, 1)));
    assert!(!Identity::from_words(1, 2).same(&Identity::from_words(1, 3)));
    assert!(!Identity::from_words(1, 2).same(&Identity::from_words(0, 2)));
}

#[test]
fn decide_set_name_keeps_identity_and_online_flag() {
    let found = User { identity: alice(), name: Some("old".to_string()), online: false };
    assert_eq!(
        decide_set_name(Some(found), "Ada".to_string()),
        Ok(User { identity: alice(), name: Some("Ada".to_string()), online: false })
    );
}

#[test]
fn decide_set_name_judges_the_name_before_the_user() {
    let found = User { identity: alice(), name: None, online: true };
    assert_eq!(
        decide_set_name(Some(found), String::new()),
        Err("Names must not be empty".to_string())
    );
    assert_eq!(decide_set_name(None, String::new()), Err("Names must not be empty".to_string()));
}

#[test]
fn decide_set_name_needs_a_user_row() {
    assert_eq!(
        decide_set_name(None, "Ada".to_string()),
        Err("Cannot set name for unknown user".to_string())
    );
}

#[test]
fn decide_save_layer_updates_what_it_found() {
    let found = Layer {
        id: 4,
        name: Some("sky".to_string()),
        owner: alice(),
        base64: Some("AAAA".to_string()),
        force_update: true,
    };
    assert_eq!(
        decide_save_layer(Some(found), bob(), "QUJD".to_string(), false),
        Write::Update(Layer {
            id: 4,
            name: Some("sky".to_string()),
            owner: bob(),
            base64: Some("QUJD".to_string()),
            force_update: false,
        })
    );
}

#[test]
fn decide_save_layer_inserts_with_the_flag_set() {
    assert_eq!(
        decide_save_layer(None, bob(), "QUJD".to_string(), false),
        Write::Insert(Layer {
            id: 0,
            name: None,
            owner: bob(),
            base64: Some("QUJD".to_string()),
            force_update: true,
        })
    );
}

#[test]
fn blank_layer_has_no_content_and_no_name() {
    assert_eq!(
        blank_layer(alice()),
        Layer { id: 0, name: None, owner: alice(), base64: None, force_update: true }
    );
}

#[test]
fn decide_rename_layer_keeps_content_and_flag() {
    let found = Layer {
        id: 9,
        name: None,
        owner: alice(),
        base64: Some("QUJD".to_string()),
        force_update: false,
    };
    assert_eq!(
        decide_rename_layer(Some(found), 9, bob(), "sea".to_string()),
        Ok(Layer {
            id: 9,
            name: Some("sea".to_string()),
            owner: bob(),
            base64: Some("QUJD".to_string()),
            force_update: false,
        })
    );
}

#[test]
fn decide_rename_layer_takes_the_empty_name() {
    let found = Layer { id: 1, name: Some("a".to_string()), owner: alice(), base64: None, force_update: true };
    assert_eq!(
        decide_rename_layer(Some(found), 1, alice(), String::new()),
        Ok(Layer { id: 1, name: Some(String::new()), owner: alice(), base64: None, force_update: true })
    );
}

#[test]
fn decide_rename_layer_names_the_missing_id() {
    assert_eq!(
        decide_rename_layer(None, 17, bob(), "sea".to_string()),
        Err("Rename layer event for an unknown layer with id 17".to_string())
    );
    assert_eq!(
        decide_rename_layer(None, -3, bob(), "sea".to_string()),
        Err("Rename layer event for an unknown layer with id -3".to_string())
    );
    assert_eq!(
        decide_rename_layer(None, i32::MIN, bob(), "sea".to_string()),
        Err(format!("Rename layer event for an unknown layer with id {}", i32::MIN))
    );
}

#[test]
fn decide_send_command_keeps_the_commands_as_they_came() {
    let mut second = stroke();
    second.command_type = "erase".to_string();
    second.stroke_style = None;
    assert_eq!(
        decide_send_command(true, 2, bob(), vec![stroke(), second]),
        Ok(Command {
            id: 0,
            layer: 2,
            owner: bob(),
            commands: vec![
                stroke(),
                DrawCommand {
                    command_type: "erase".to_string(),
                    blend_mode: Some("multiply".to_string()),
                    pos: Some(Point { x: 3, y: -4 }),
                    stroke_style: None,
                    start_width: Some(2),
                    end_width: None,
                },
            ],
        })
    );
}

#[test]
fn decide_send_command_names_the_missing_id() {
    assert_eq!(
        decide_send_command(false, 120, bob(), vec![stroke()]),
        Err("Layer with id 120 is not exist".to_string())
    );
    assert_eq!(
        decide_send_command(false, 0, bob(), Vec::new()),
        Err("Layer with id 0 is not exist".to_string())
    );
}

#[test]
fn decide_connect_brings_a_known_user_online() {
    let found = User { identity: alice(), name: Some("Ada".to_string()), online: false };
    assert_eq!(
        decide_connect(Some(found), alice()),
        Write::Update(User { identity: alice(), name: Some("Ada".to_string()), online: true })
    );
}

#[test]
fn decide_connect_makes_the_row_of_a_new_user() {
    assert_eq!(
        decide_connect(None, bob()),
        Write::Insert(User { identity: bob(), name: None, online: true })
    );
}

#[test]
fn stroke_style_carries_the_bits_of_its_numbers() {
    let style = stroke().stroke_style.unwrap();
    assert_eq!(f32::from_bits(style.width_bits), 1.5);
    assert_eq!(f32::from_bits(style.alpha_bits), 0.25);
}
