use huer::{Bridge, Error};

#[test]
fn discovery_parses_records_into_identities() {
    let body = r#"[{"id":"aabbccddeeff","internalipaddress":"192.168.1.7","port":443}]"#;
    let bridges = Bridge::discover(body).unwrap();
    assert_eq!(bridges.len(), 1);
    assert_eq!(bridges[0].host(), "192.168.1.7");
    assert_eq!(bridges[0].id(), "aabbccddeeff");
    assert_eq!(bridges[0].port(), 443);
}

#[test]
fn identical_records_collapse_into_one_identity() {
    let body = r#"[{"id":"aabbccddeeff","internalipaddress":"192.168.1.7","port":443},{"id":"aabbccddeeff","internalipaddress":"192.168.1.7","port":443}]"#;
    let bridges = Bridge::discover(body).unwrap();
    assert_eq!(bridges.len(), 1);
}

#[test]
fn records_differing_in_host_only_both_survive() {
    let body = r#"[{"id":"aabbccddeeff","internalipaddress":"192.168.1.7","port":443},{"id":"aabbccddeeff","internalipaddress":"192.168.1.8","port":443}]"#;
    let bridges = Bridge::discover(body).unwrap();
    assert_eq!(bridges.len(), 2);
    assert_eq!(bridges[0].id(), bridges[1].id());
    assert_ne!(bridges[0].host(), bridges[1].host());
}

#[test]
fn no_bridges_found_is_not_an_error() {
    let bridges = Bridge::discover("[]").unwrap();
    assert_eq!(bridges.len(), 0);
}

#[test]
fn host_text_is_validated_and_normalized() {
    // a domain name is accepted and IDNA-normalizes to lower case
    let body = r#"[{"id":"aa","internalipaddress":"MyBridge.Local","port":443}]"#;
    let bridges = Bridge::discover(body).unwrap();
    assert_eq!(bridges[0].host(), "mybridge.local");

    // an invalid host fails the entire discovery
    let body = r#"[{"id":"aa","internalipaddress":"not a host","port":443}]"#;
    assert!(matches!(Bridge::discover(body), Err(Error::Http(_))));
}

#[test]
fn extra_members_are_ignored_and_order_is_free() {
    let body = "[{\"port\":443,\"name\":\"hue\",\"internalipaddress\":\"10.0.0.2\",\n \"id\":\"ff\",\"extra\":true,\"other\":null}]";
    let bridges = Bridge::discover(body).unwrap();
    assert_eq!(bridges[0].host(), "10.0.0.2");
    assert_eq!(bridges[0].id(), "ff");
    assert_eq!(bridges[0].port(), 443);
}

#[test]
fn malformed_discovery_bodies_fail_as_transport_errors() {
    // not an array
    assert!(matches!(
        Bridge::discover(r#"{"id":"aa"}"#),
        Err(Error::Http(_))
    ));
    // a record missing the id
    assert!(matches!(
        Bridge::discover(r#"[{"internalipaddress":"10.0.0.2","port":443}]"#),
        Err(Error::Http(_))
    ));
    // a port that is not a port number
    assert!(matches!(
        Bridge::discover(r#"[{"id":"aa","internalipaddress":"10.0.0.2","port":70000}]"#),
        Err(Error::Http(_))
    ));
    // trailing garbage
    assert!(matches!(Bridge::discover("[] []"), Err(Error::Http(_))));
}

#[test]
fn identity_round_trips_through_its_accessors() {
    let b = Bridge::new(
        String::from("192.168.1.7"),
        String::from("aabbccddeeff"),
        443,
    );
    assert_eq!(b.host(), "192.168.1.7");
    assert_eq!(b.id(), "aabbccddeeff");
    assert_eq!(b.port(), 443);
}

#[test]
fn root_ca_constant_is_a_pem_certificate() {
    let pem = huer::HUE_BRIDGE_ROOT_CA;
    assert!(pem.starts_with("\n-----BEGIN CERTIFICATE-----\n"));
    assert!(pem.ends_with("-----END CERTIFICATE-----\n"));
    assert_eq!(pem.len(), 823);
}
