use planarwm::actions::{parse_action, parse_modifiers, Action};
use planarwm::text::trim_str;

#[test]
fn trimming() {
    assert_eq!(trim_str("  a b\t\n"), "a b");
    assert_eq!(trim_str("\u{3000}x\u{a0}"), "x");
    assert_eq!(trim_str("   "), "");
}

#[test]
fn modifiers_parse() {
    assert_eq!(parse_modifiers("Super+Shift").map(|m| m.bits), Some(64 | 1));
    assert_eq!(parse_modifiers(" ctrl - alt ").map(|m| m.bits), Some(4 | 8));
    assert_eq!(parse_modifiers("none").map(|m| m.bits), Some(0));
    assert_eq!(parse_modifiers("mod3+mod5").map(|m| m.bits), Some(32 | 128));
    assert!(parse_modifiers("").is_none());
    assert!(parse_modifiers("+").is_none());
    assert!(parse_modifiers("hyper").is_none());
    assert!(parse_modifiers("super+hyper").is_none());
}

#[test]
fn actions_parse() {
    assert!(matches!(parse_action("  pan "), Some(Action::Pan)));
    assert!(matches!(parse_action("maximize"), Some(Action::ToggleMaximize)));
    assert!(matches!(parse_action("view 10 -20"), Some(Action::View { x: 10, y: -20 })));
    assert!(parse_action("view 10").is_none());
    assert!(parse_action("view x 1").is_none());
    assert!(parse_action("view 99999999999 1").is_none());
    match parse_action("spawn foot -e  htop") {
        Some(Action::Spawn { program, args }) => {
            assert_eq!(program, "foot");
            assert_eq!(args, vec!["-e".to_string(), "htop".to_string()]);
        }
        _ => panic!("spawn not parsed"),
    }
    match parse_action("shell   echo hi  ") {
        Some(Action::SpawnShell { command }) => assert_eq!(command, "echo hi"),
        _ => panic!("shell not parsed"),
    }
    assert!(parse_action("spawn ").is_none());
    assert!(parse_action("unknown").is_none());
}

#[test]
fn whitespace_around_an_action_is_ignored() {
    assert!(matches!(parse_action("\u{3000} view 3 4\t\n"), Some(Action::View { x: 3, y: 4 })));
    assert!(matches!(parse_action(" \u{a0}close\u{2003}"), Some(Action::Close)));
}
