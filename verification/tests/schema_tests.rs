use ironhold_core::schema::{InputMap, KeyCode};
use ironhold_core::text::{split_prefix, str_eq};

fn sample_inputs() -> InputMap {
    InputMap {
        forward: "W".to_string(),
        backward: "S".to_string(),
        left: "A".to_string(),
        right: "D".to_string(),
        strafe_left: "Q".to_string(),
        strafe_right: "E".to_string(),
        jump: "Space".to_string(),
        run: "ShiftLeft".to_string(),
    }
}

#[test]
fn test_parse_key_accepts_long_and_short_names() {
    assert_eq!(InputMap::parse_key("KeyW"), Some(KeyCode::KeyW));
    assert_eq!(InputMap::parse_key("W"), Some(KeyCode::KeyW));
    assert_eq!(InputMap::parse_key("KeyA"), Some(KeyCode::KeyA));
    assert_eq!(InputMap::parse_key("A"), Some(KeyCode::KeyA));
    assert_eq!(InputMap::parse_key("KeyS"), Some(KeyCode::KeyS));
    assert_eq!(InputMap::parse_key("S"), Some(KeyCode::KeyS));
    assert_eq!(InputMap::parse_key("KeyD"), Some(KeyCode::KeyD));
    assert_eq!(InputMap::parse_key("D"), Some(KeyCode::KeyD));
    assert_eq!(InputMap::parse_key("KeyQ"), Some(KeyCode::KeyQ));
    assert_eq!(InputMap::parse_key("Q"), Some(KeyCode::KeyQ));
    assert_eq!(InputMap::parse_key("KeyE"), Some(KeyCode::KeyE));
    assert_eq!(InputMap::parse_key("E"), Some(KeyCode::KeyE));
    assert_eq!(InputMap::parse_key("Space"), Some(KeyCode::Space));
    assert_eq!(InputMap::parse_key("ShiftLeft"), Some(KeyCode::ShiftLeft));
    assert_eq!(InputMap::parse_key("ShiftRight"), Some(KeyCode::ShiftRight));
}

#[test]
fn test_parse_key_rejects_unknown_names() {
    assert_eq!(InputMap::parse_key("Escape"), None);
    assert_eq!(InputMap::parse_key("w"), None);
    assert_eq!(InputMap::parse_key(""), None);
}

#[test]
fn test_key_resolves_roles_through_bindings() {
    let inputs = sample_inputs();
    assert_eq!(inputs.key("forward"), Some(KeyCode::KeyW));
    assert_eq!(inputs.key("backward"), Some(KeyCode::KeyS));
    assert_eq!(inputs.key("left"), Some(KeyCode::KeyA));
    assert_eq!(inputs.key("right"), Some(KeyCode::KeyD));
    assert_eq!(inputs.key("strafe_left"), Some(KeyCode::KeyQ));
    assert_eq!(inputs.key("strafe_right"), Some(KeyCode::KeyE));
    assert_eq!(inputs.key("jump"), Some(KeyCode::Space));
    assert_eq!(inputs.key("run"), Some(KeyCode::ShiftLeft));
}

#[test]
fn test_key_on_unknown_role_or_binding_is_none() {
    let mut inputs = sample_inputs();
    assert_eq!(inputs.key("dance"), None);
    // A binding naming no supported key is inert, not an error.
    inputs.forward = "Enter".to_string();
    assert_eq!(inputs.key("forward"), None);
}

#[test]
fn test_split_prefix_cuts_at_first_separator() {
    assert_eq!(split_prefix("models/player.glb#Scene0", '#'), "models/player.glb");
    assert_eq!(split_prefix("a#b#c", '#'), "a");
    assert_eq!(split_prefix("no-label", '#'), "no-label");
    assert_eq!(split_prefix("", '#'), "");
    assert_eq!(split_prefix("#leading", '#'), "");
}

#[test]
fn test_str_eq_compares_contents() {
    assert!(str_eq("same", "same"));
    assert!(!str_eq("same", "other"));
    assert!(!str_eq("same", "sam"));
    assert!(str_eq("", ""));
}
