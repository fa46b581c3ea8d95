use axe::event::{parse_event, render_event, AppEvent, ParseEventError};

fn err(s: &str) -> Option<ParseEventError> {
    parse_event(s).err()
}

#[test]
fn ping_parses() {
    assert!(matches!(parse_event("ping"), Ok(AppEvent::Ping)));
}

#[test]
fn ping_with_colon_is_extra_data() {
    assert_eq!(err("ping:"), Some(ParseEventError::ExtraData));
    assert_eq!(err("ping:x"), Some(ParseEventError::ExtraData));
}

#[test]
fn deploy_without_arg_is_missing_arg() {
    assert_eq!(err("deploy:"), Some(ParseEventError::MissingArg));
    assert_eq!(err("deploy"), Some(ParseEventError::MissingArg));
    assert_eq!(err("navigate"), Some(ParseEventError::MissingArg));
    assert_eq!(err("search_services:"), Some(ParseEventError::MissingArg));
}

#[test]
fn unknown_kind() {
    assert_eq!(err("wobble:foo"), Some(ParseEventError::UnknownKind));
    assert_eq!(err(""), Some(ParseEventError::UnknownKind));
    assert_eq!(err("Ping"), Some(ParseEventError::UnknownKind));
}

#[test]
fn args_split_on_first_colon() {
    match parse_event("navigate:/service?name=a:b") {
        Ok(AppEvent::Navigate(p)) => assert_eq!(p, "/service?name=a:b"),
        other => panic!("{:?}", other),
    }
    match parse_event("deploy:svc-a") {
        Ok(AppEvent::Deploy(p)) => assert_eq!(p, "svc-a"),
        other => panic!("{:?}", other),
    }
    match parse_event("search_services:  Fi") {
        Ok(AppEvent::SearchServices(p)) => assert_eq!(p, "  Fi"),
        other => panic!("{:?}", other),
    }
}

#[test]
fn event_round_trip() {
    let events = vec![
        AppEvent::Ping,
        AppEvent::Deploy("svc:a".to_string()),
        AppEvent::SearchServices("q".to_string()),
        AppEvent::Navigate("/settings".to_string()),
    ];
    for e in events {
        let text = render_event(&e);
        let back = parse_event(&text).expect("parses");
        assert_eq!(format!("{:?}", back), format!("{:?}", e));
    }
    assert_eq!(render_event(&AppEvent::Deploy("x".to_string())), "deploy:x");
}
