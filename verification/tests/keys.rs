use planarwm::actions::parse_keysym;
use planarwm::manage::resolve_keysyms;

fn lookup(name: &str) -> u32 {
    match name {
        "Return" => 0xff0d,
        "a" => 0x61,
        _ => 0,
    }
}

#[test]
fn key_names_are_trimmed_before_the_lookup() {
    assert_eq!(parse_keysym("Return", &lookup), Some(0xff0d));
    assert_eq!(parse_keysym(" \ta\u{3000}", &lookup), Some(0x61));
    assert_eq!(parse_keysym("Return x", &lookup), None);
    assert_eq!(parse_keysym("", &lookup), None);
}

#[test]
fn keysym_table_follows_the_configuration() {
    let groups = vec![
        ("super".to_string(), vec![("a".to_string(), "close".to_string()), ("b".to_string(), "pan".to_string())]),
        ("alt".to_string(), vec![]),
        ("shift".to_string(), vec![(" Return".to_string(), "exit".to_string())]),
    ];
    assert_eq!(resolve_keysyms(&groups, &lookup), vec![vec![Some(0x61), None], vec![], vec![Some(0xff0d)]]);
}
