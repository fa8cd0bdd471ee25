use pluralkit_api_edge::authnz::{apikey_can_access, is_part_path, ApiKey, ApiKeyAccess, ApiKeyType, Method};
use pluralkit_api_edge::privacy::PrivacyLevel;

fn key(kind: ApiKeyType, scopes: &[&str]) -> ApiKey {
    ApiKey {
        id: "tid-1".to_string(),
        kind,
        scopes: scopes.iter().map(|s| s.to_string()).collect(),
        system: 42,
    }
}

#[test]
fn member_groups_belong_to_groups_not_members() {
    assert!(!is_part_path("members", "/v2/members/123/groups"));
    assert!(is_part_path("groups", "/v2/members/123/groups"));
    assert!(!is_part_path("members", "/v2/members/123/groups/456"));
    assert!(is_part_path("groups", "/v2/members/123/groups/456"));
    assert!(is_part_path("members", "/v2/members/123"));
    assert!(is_part_path("members", "/v2/members"));
    assert!(is_part_path("members", "/v2/systems/:system_id/members"));
}

#[test]
fn paths_outside_v2_belong_nowhere() {
    for part in ["system", "members", "groups", "switches"] {
        assert!(!is_part_path(part, "/v1/members"));
        assert!(!is_part_path(part, "v2/members"));
        assert!(!is_part_path(part, "/v2"));
        assert!(!is_part_path(part, ""));
        assert!(!is_part_path(part, "/internal/systems/1"));
    }
}

#[test]
fn system_and_switch_paths() {
    assert!(is_part_path("system", "/v2/systems/abc"));
    assert!(is_part_path("system", "/v2/systems/abc/settings"));
    assert!(is_part_path("system", "/v2/systems/abc/autoproxy"));
    assert!(is_part_path("system", "/v2/systems/abc/guilds/123"));
    assert!(!is_part_path("system", "/v2/systems/abc/members"));
    assert!(is_part_path("switches", "/v2/systems/abc/fronters"));
    assert!(is_part_path("switches", "/v2/systems/abc/switches"));
    assert!(is_part_path("switches", "/v2/systems/abc/switches/sw1"));
    assert!(!is_part_path("switches", "/v2/systems/abc/fronters/x"));
    assert!(is_part_path("groups", "/v2/groups"));
    assert!(is_part_path("groups", "/v2/groups/g1/members"));
    assert!(!is_part_path("other", "/v2/systems/abc"));
}

#[test]
fn dashboard_key_has_full_access() {
    let k = key(ApiKeyType::Dashboard, &[]);
    for method in [Method::Get, Method::Post, Method::Patch, Method::Delete] {
        for path in ["/v2/members", "/v2/systems/:system_id", "/internal/x", "unknown"] {
            assert_eq!(apikey_can_access(&k, method, path), ApiKeyAccess::Full);
        }
    }
}

#[test]
fn read_members_scope() {
    let k = key(ApiKeyType::UserCreated, &["read:members"]);
    assert_eq!(apikey_can_access(&k, Method::Get, "/v2/members"), ApiKeyAccess::PrivateRead);
    assert_eq!(apikey_can_access(&k, Method::Post, "/v2/members"), ApiKeyAccess::NoAccess);
    assert_eq!(apikey_can_access(&k, Method::Get, "/v2/groups"), ApiKeyAccess::NoAccess);
}

#[test]
fn maximum_of_scopes() {
    let k = key(ApiKeyType::UserCreated, &["publicread:all", "write:groups"]);
    assert_eq!(apikey_can_access(&k, Method::Get, "/v2/members"), ApiKeyAccess::PublicRead);
    assert_eq!(apikey_can_access(&k, Method::Get, "/v2/groups"), ApiKeyAccess::Full);
    assert_eq!(apikey_can_access(&k, Method::Delete, "/v2/groups/g1"), ApiKeyAccess::Full);
    assert_eq!(apikey_can_access(&k, Method::Post, "/v2/members"), ApiKeyAccess::NoAccess);
}

#[test]
fn identify_scope() {
    let k = key(ApiKeyType::UserCreated, &["identify"]);
    assert_eq!(apikey_can_access(&k, Method::Get, "/v2/systems/:system_id"), ApiKeyAccess::PublicRead);
    assert_eq!(apikey_can_access(&k, Method::Get, "/v2/systems/abc"), ApiKeyAccess::NoAccess);
    assert_eq!(apikey_can_access(&k, Method::Post, "/v2/systems/:system_id"), ApiKeyAccess::NoAccess);
}

#[test]
fn malformed_scopes_grant_nothing() {
    let k = key(ApiKeyType::UserCreated, &["read", "read:members:extra", "delete:members", ""]);
    assert_eq!(apikey_can_access(&k, Method::Get, "/v2/members"), ApiKeyAccess::NoAccess);
    let w = key(ApiKeyType::UserCreated, &["write:all"]);
    assert_eq!(apikey_can_access(&w, Method::Patch, "/somewhere"), ApiKeyAccess::Full);
}

#[test]
fn access_ranks_and_privacy() {
    assert_eq!(ApiKeyAccess::NoAccess.rank(), 0);
    assert_eq!(ApiKeyAccess::PublicRead.rank(), 1);
    assert_eq!(ApiKeyAccess::PrivateRead.rank(), 2);
    assert_eq!(ApiKeyAccess::Full.rank(), 3);
    assert!(ApiKeyAccess::NoAccess < ApiKeyAccess::PublicRead);
    assert!(ApiKeyAccess::PrivateRead < ApiKeyAccess::Full);
    assert_eq!(ApiKeyAccess::NoAccess.privacy_level(), "public");
    assert_eq!(ApiKeyAccess::PublicRead.privacy_level(), "public");
    assert_eq!(ApiKeyAccess::PrivateRead.privacy_level(), "private");
    assert_eq!(ApiKeyAccess::Full.privacy_level(), "private");
}

#[test]
fn privacy_level_codes() {
    assert_eq!(PrivacyLevel::from_code(1), PrivacyLevel::Public);
    assert_eq!(PrivacyLevel::from_code(2), PrivacyLevel::Private);
    assert_eq!(PrivacyLevel::from_code(1).as_str(), "public");
    assert_eq!(PrivacyLevel::from_code(2).as_str(), "private");
}
