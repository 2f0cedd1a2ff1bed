use huer::{AuthEvent, AuthStep, AuthenticationError, Authenticator, Error, Response};

#[test]
fn deserialize_err_response() {
    let err_res =
        r#"[{"error":{"type":101,"address":"","description":"link button not pressed"}}]"#;
    let e = huer::parse_response(err_res).unwrap();
    assert!(matches!(e, Response::Error { .. }));
}

#[test]
fn deserialize_ok_response() {
    let ok_res = r#"[{"success":{"username":"TEzEX5HApPsYDwTmI2HqBHL-4MuQRYf8SmMB-4Wv","clientkey":"C2B605F53DCA6814775A2C9ACB20F3C3"}}]"#;
    let o = huer::parse_response(ok_res).unwrap();
    assert!(matches!(o, Response::Success { .. }));
}

#[test]
fn pending_response_is_never_success() {
    let body =
        r#"[{"error":{"type":101,"address":"/","description":"link button not pressed"}}]"#;
    match huer::parse_response(body) {
        Some(Response::Error { code }) => assert_eq!(code, 101),
        other => panic!("expected the pending error variant, got {:?}", other.is_some()),
    }
}

#[test]
fn success_response_yields_exact_credentials() {
    let body = r#"[{"success":{"username":"U","clientkey":"K"}}]"#;
    match huer::parse_response(body) {
        Some(Response::Success { username, clientkey }) => {
            assert_eq!(username, "U");
            assert_eq!(clientkey, "K");
        },
        _ => panic!("expected the success variant"),
    }
}

#[test]
fn success_fields_in_any_order_and_with_whitespace() {
    let body = " [ { \"success\" : { \"clientkey\" : \"K2\" , \"username\" : \"U2\" } } ] ";
    match huer::parse_response(body) {
        Some(Response::Success { username, clientkey }) => {
            assert_eq!(username, "U2");
            assert_eq!(clientkey, "K2");
        },
        _ => panic!("expected the success variant"),
    }
}

#[test]
fn escaped_characters_are_unescaped() {
    let body = r#"[{"success":{"username":"a\"b\\c\/d\ne","clientkey":"K"}}]"#;
    match huer::parse_response(body) {
        Some(Response::Success { username, .. }) => {
            assert_eq!(username, "a\"b\\c/d\ne");
        },
        _ => panic!("expected the success variant"),
    }
}

#[test]
fn malformed_bodies_are_rejected() {
    // two elements instead of the single-element wrapping
    assert!(huer::parse_response(
        r#"[{"error":{"type":101}},{"error":{"type":101}}]"#
    )
    .is_none());
    // no array wrapping
    assert!(huer::parse_response(r#"{"error":{"type":101}}"#).is_none());
    // unknown wrapper key
    assert!(huer::parse_response(r#"[{"failure":{"type":101}}]"#).is_none());
    // error code that does not fit the code type
    assert!(huer::parse_response(r#"[{"error":{"type":99999}}]"#).is_none());
    // trailing garbage
    assert!(huer::parse_response(r#"[{"error":{"type":101}}]x"#).is_none());
    // missing credential member
    assert!(huer::parse_response(r#"[{"success":{"username":"U"}}]"#).is_none());
    assert!(huer::parse_response("").is_none());
}

#[test]
fn step_retries_exactly_on_code_101() {
    let pending = AuthEvent::Reply(String::from(
        r#"[{"error":{"type":101,"address":"","description":"link button not pressed"}}]"#,
    ));
    assert!(matches!(Authenticator::step(&pending), AuthStep::Retry));

    let terminal = AuthEvent::Reply(String::from(r#"[{"error":{"type":1}}]"#));
    match Authenticator::step(&terminal) {
        AuthStep::Done(Err(Error::Authentication(AuthenticationError::Other(code)))) => {
            assert_eq!(code, 1)
        },
        _ => panic!("a non-101 code must end the operation at once"),
    }
}

#[test]
fn step_fails_on_malformed_body_and_transport_errors() {
    let malformed = AuthEvent::Reply(String::from("not json"));
    assert!(matches!(
        Authenticator::step(&malformed),
        AuthStep::Done(Err(Error::Http(_)))
    ));

    let transport = AuthEvent::TransportFailed(String::from("connection refused"));
    match Authenticator::step(&transport) {
        AuthStep::Done(Err(Error::Http(m))) => assert_eq!(m, "connection refused"),
        _ => panic!("a transport failure must end the operation at once"),
    }

    assert!(matches!(
        Authenticator::step(&AuthEvent::DeadlineElapsed),
        AuthStep::Done(Err(Error::Authentication(AuthenticationError::TimedOut)))
    ));
}

#[test]
fn run_success_on_third_attempt_posts_three_times_with_two_waits() {
    let pending =
        r#"[{"error":{"type":101,"address":"","description":"link button not pressed"}}]"#;
    let events = vec![
        AuthEvent::Reply(String::from(pending)),
        AuthEvent::Reply(String::from(pending)),
        AuthEvent::Reply(String::from(
            r#"[{"success":{"username":"U","clientkey":"K"}}]"#,
        )),
    ];
    let (result, posts, waits) = Authenticator::request(&events).unwrap();
    let auth = result.unwrap();
    assert_eq!(auth.username(), "U");
    assert_eq!(auth.clientkey(), "K");
    assert_eq!(posts, 3);
    assert_eq!(waits, 2);
}

#[test]
fn run_terminal_error_on_first_attempt_never_waits() {
    let events = vec![
        AuthEvent::Reply(String::from(r#"[{"error":{"type":1}}]"#)),
        AuthEvent::Reply(String::from(
            r#"[{"success":{"username":"U","clientkey":"K"}}]"#,
        )),
    ];
    let (result, posts, waits) = Authenticator::request(&events).unwrap();
    match result {
        Err(Error::Authentication(AuthenticationError::Other(code))) => assert_eq!(code, 1),
        _ => panic!("expected the terminal error"),
    }
    assert_eq!(posts, 1);
    assert_eq!(waits, 0);
}

#[test]
fn run_times_out_when_button_is_never_pressed() {
    let pending =
        r#"[{"error":{"type":101,"address":"","description":"link button not pressed"}}]"#;
    let events = vec![
        AuthEvent::Reply(String::from(pending)),
        AuthEvent::Reply(String::from(pending)),
        AuthEvent::DeadlineElapsed,
    ];
    let (result, posts, _waits) = Authenticator::request(&events).unwrap();
    assert!(matches!(
        result,
        Err(Error::Authentication(AuthenticationError::TimedOut))
    ));
    assert_eq!(posts, 2);
}

#[test]
fn run_without_a_terminal_event_reports_nothing() {
    let pending =
        r#"[{"error":{"type":101,"address":"","description":"link button not pressed"}}]"#;
    let events = vec![
        AuthEvent::Reply(String::from(pending)),
        AuthEvent::Reply(String::from(pending)),
    ];
    assert!(Authenticator::request(&events).is_none());
    assert!(Authenticator::request(&Vec::new()).is_none());
}

#[test]
fn run_propagates_a_transport_failure_at_once() {
    let events = vec![
        AuthEvent::TransportFailed(String::from("dns failure")),
        AuthEvent::Reply(String::from(
            r#"[{"success":{"username":"U","clientkey":"K"}}]"#,
        )),
    ];
    let (result, posts, waits) = Authenticator::request(&events).unwrap();
    match result {
        Err(Error::Http(m)) => assert_eq!(m, "dns failure"),
        _ => panic!("expected the transport error"),
    }
    assert_eq!(posts, 1);
    assert_eq!(waits, 0);
}

#[test]
fn payload_escapes_control_characters() {
    assert_eq!(
        huer::auth_payload("a\u{1}b\tc"),
        "{\"devicetype\":\"a\\u0001b\\tc\",\"generateclientkey\":true}"
    );
}

#[test]
fn payload_has_the_exact_wire_shape() {
    assert_eq!(
        huer::auth_payload("my_app"),
        r#"{"devicetype":"my_app","generateclientkey":true}"#
    );
    assert_eq!(
        huer::auth_payload("a\"b\\c"),
        r#"{"devicetype":"a\"b\\c","generateclientkey":true}"#
    );
}

#[test]
fn auth_url_uses_the_legacy_api_endpoint() {
    assert_eq!(huer::auth_url("192.168.1.7"), "https://192.168.1.7/api");
}
