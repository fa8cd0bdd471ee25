use pluralkit_api_edge::authnz::{
    authentication_response_headers, authnz, bearer_token, ApiKey, ApiKeyType, Credential, Method,
    DID_AUTHENTICATE_HEADER,
};
use pluralkit_api_edge::internal::{gate_internal_routes, GateOutcome};
use pluralkit_api_edge::privacy::PrivacyLevel;
use pluralkit_api_edge::system::{JsonValue, NaiveTimestamp, System};

fn h(pairs: &[(&str, &str)]) -> Vec<(String, String)> {
    pairs.iter().map(|(a, b)| (a.to_string(), b.to_string())).collect()
}

fn forged() -> Vec<(String, String)> {
    h(&[
        ("x-pluralkit-systemid", "666"),
        ("accept", "*/*"),
        ("X-PluralKit-Tid", "forged"),
        ("x-pluralkit-privacylevel", "private"),
        ("authorization", "Bearer abc"),
    ])
}

fn scoped(scopes: &[&str], system: i32) -> ApiKey {
    ApiKey {
        id: "t1".to_string(),
        kind: ApiKeyType::UserCreated,
        scopes: scopes.iter().map(|s| s.to_string()).collect(),
        system,
    }
}

#[test]
fn forged_identity_headers_are_stripped() {
    let out = authnz(Method::Get, "/v2/members", &forged(), &Credential::Unrecognized);
    assert_eq!(out.headers, h(&[("accept", "*/*"), ("authorization", "Bearer abc")]));
    assert_eq!(out.authenticated, None);
    assert!(authentication_response_headers(&out.authenticated).is_empty());
}

#[test]
fn forged_internal_marker_is_stripped() {
    let hs = h(&[("x-pluralkit-internal", "1"), ("accept", "*/*")]);
    match gate_internal_routes("/v2/systems/:system_id", &hs, "s3cret") {
        GateOutcome::Forward(out) => assert_eq!(out, h(&[("accept", "*/*")])),
        other => panic!("unexpected {:?}", other),
    }
}

#[test]
fn bearer_with_access_stamps_identity() {
    let cred = Credential::Bearer { token_id: "tok-9".to_string(), key: scoped(&["read:members"], 123) };
    let out = authnz(Method::Get, "/v2/members", &forged(), &cred);
    assert_eq!(
        out.headers,
        h(&[
            ("accept", "*/*"),
            ("authorization", "Bearer abc"),
            ("x-pluralkit-tid", "tok-9"),
            ("x-pluralkit-systemid", "123"),
            ("x-pluralkit-privacylevel", "private"),
        ])
    );
    assert_eq!(out.authenticated, Some("tok-9".to_string()));
}

#[test]
fn bearer_public_read_stamps_public_exposure() {
    let cred = Credential::Bearer { token_id: "tok".to_string(), key: scoped(&["publicread:all"], -7) };
    let out = authnz(Method::Get, "/v2/groups", &Vec::new(), &cred);
    assert_eq!(
        out.headers,
        h(&[("x-pluralkit-tid", "tok"), ("x-pluralkit-systemid", "-7"), ("x-pluralkit-privacylevel", "public")])
    );
}

#[test]
fn bearer_without_access_is_still_authenticated() {
    let cred = Credential::Bearer { token_id: "tok-0".to_string(), key: scoped(&["read:groups"], 5) };
    let out = authnz(Method::Get, "/v2/members", &forged(), &cred);
    assert_eq!(
        out.headers,
        h(&[("accept", "*/*"), ("authorization", "Bearer abc"), ("x-pluralkit-tid", "tok-0")])
    );
    assert_eq!(out.authenticated, Some("tok-0".to_string()));
    let resp = authentication_response_headers(&out.authenticated);
    assert_eq!(resp, h(&[(DID_AUTHENTICATE_HEADER, "1"), ("X-PluralKit-Authentication", "tok-0")]));
}

#[test]
fn legacy_token_is_private() {
    for system in [1, 2147483647, -2147483648] {
        let out = authnz(Method::Post, "unknown", &forged(), &Credential::Legacy { system });
        let sys = system.to_string();
        assert_eq!(
            out.headers,
            h(&[
                ("accept", "*/*"),
                ("authorization", "Bearer abc"),
                ("x-pluralkit-systemid", sys.as_str()),
                ("x-pluralkit-privacylevel", "private"),
            ])
        );
        let resp = authentication_response_headers(&out.authenticated);
        assert_eq!(resp[1], ("X-PluralKit-Authentication".to_string(), "legacytoken".to_string()));
    }
}

#[test]
fn bearer_prefix() {
    assert_eq!(bearer_token("Bearer abc.def"), Some("abc.def"));
    assert_eq!(bearer_token("Bearer "), Some(""));
    assert_eq!(bearer_token("bearer abc"), None);
    assert_eq!(bearer_token("Bearer"), None);
    assert_eq!(bearer_token("sometoken"), None);
}

#[test]
fn internal_gate_needs_secret() {
    let body = r#"{"message":"go away","code":0}"#;
    let cases = vec![
        h(&[]),
        h(&[("x-pluralkit-internalauth", "wrong")]),
        h(&[("x-pluralkit-client-ip", "127.0.0.1")]),
        h(&[("x-pluralkit-client-ip", "10.0.0.1"), ("x-pluralkit-internalauth", "wrong")]),
        h(&[("X-PluralKit-Client-IP", "127.0.0.1"), ("x-pluralkit-internalauth", "s3cret")]),
        h(&[("x-pluralkit-internalauth", "wrong"), ("x-pluralkit-internalauth", "s3cret")]),
    ];
    for hs in cases {
        match gate_internal_routes("/internal/metrics", &hs, "s3cret") {
            GateOutcome::Reject { status, body: b } => {
                assert_eq!(status, 403);
                assert_eq!(b, body);
            }
            other => panic!("unexpected {:?}", other),
        }
    }
}

#[test]
fn internal_gate_passes_trusted_caller() {
    let hs = h(&[("x-pluralkit-internal", "0"), ("X-PluralKit-InternalAuth", "s3cret")]);
    match gate_internal_routes("/internal/metrics", &hs, "s3cret") {
        GateOutcome::Forward(out) => assert_eq!(
            out,
            h(&[("X-PluralKit-InternalAuth", "s3cret"), ("x-pluralkit-internal", "1")])
        ),
        other => panic!("unexpected {:?}", other),
    }
}

fn sample_system(p: PrivacyLevel) -> System {
    let s = |v: &str| Some(v.to_string());
    System {
        id: 1,
        hid: "abcde".to_string(),
        uuid: 0x0123,
        name: s("Sys"),
        description: s("desc"),
        tag: s("tag"),
        pronouns: s("they"),
        avatar_url: s("https://a"),
        banner_image: s("https://b"),
        color: s("ff0000"),
        token: s("secret-token"),
        webhook_url: s("https://hook"),
        webhook_token: s("hook-secret"),
        created: NaiveTimestamp { seconds: 1_600_000_000, nanos: 0 },
        name_privacy: p,
        avatar_privacy: p,
        description_privacy: p,
        banner_privacy: p,
        member_list_privacy: p,
        front_privacy: p,
        front_history_privacy: p,
        group_list_privacy: p,
        pronoun_privacy: p,
    }
}

fn keys(v: &[(String, JsonValue)]) -> Vec<&str> {
    v.iter().map(|(k, _)| k.as_str()).collect()
}

#[test]
fn public_projection_hides_private_fields_and_secrets() {
    let sys = sample_system(PrivacyLevel::Private);
    let json = sys.to_json(PrivacyLevel::Public);
    assert_eq!(keys(&json), vec!["id", "uuid", "tag", "color", "webhook_url", "created"]);
    let full = sys.to_json(PrivacyLevel::Private);
    assert_eq!(
        keys(&full),
        vec![
            "id", "uuid", "name", "description", "tag", "pronouns", "avatar_url", "banner_image",
            "color", "webhook_url", "created"
        ]
    );
    assert!(!keys(&full).contains(&"token"));
    assert!(!keys(&full).contains(&"webhook_token"));
}

#[test]
fn public_fields_are_shown_to_everyone() {
    let sys = sample_system(PrivacyLevel::Public);
    let json = sys.to_json(PrivacyLevel::Public);
    assert_eq!(keys(&json).len(), 11);
    match &json[2].1 {
        JsonValue::Text(t) => assert_eq!(t, "Sys"),
        other => panic!("unexpected {:?}", other),
    }
    let mut quiet = sample_system(PrivacyLevel::Public);
    quiet.name = None;
    match &quiet.to_json(PrivacyLevel::Public)[2].1 {
        JsonValue::Null => {}
        other => panic!("unexpected {:?}", other),
    }
}
