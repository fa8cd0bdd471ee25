use vstd::prelude::*;

use crate::headers::{header_seq, name_seq, remove_headers, without_names};
use crate::text::{split_on, split_str, starts_with, str_eq};

verus! {

/// What a credential may do on one request, from least to most.
#[derive(Clone, Copy, Debug, PartialEq, Eq, Structural, PartialOrd, Ord, Hash)]
pub enum ApiKeyAccess {
    NoAccess,
    PublicRead,
    PrivateRead,
    Full,
}

/// Position of an access level in the order `NoAccess < PublicRead < PrivateRead < Full`.
pub open spec fn access_rank(a: ApiKeyAccess) -> nat {
    match a {
        ApiKeyAccess::NoAccess => 0,
        ApiKeyAccess::PublicRead => 1,
        ApiKeyAccess::PrivateRead => 2,
        ApiKeyAccess::Full => 3,
    }
}

/// The greater of two access levels.
pub open spec fn access_max(a: ApiKeyAccess, b: ApiKeyAccess) -> ApiKeyAccess {
    if access_rank(b) > access_rank(a) {
        b
    } else {
        a
    }
}

/// The exposure class of an access level: reading rights stop at public
/// data below `PrivateRead`.
pub open spec fn exposure_word(a: ApiKeyAccess) -> Seq<char> {
    match a {
        ApiKeyAccess::NoAccess | ApiKeyAccess::PublicRead => "public"@,
        ApiKeyAccess::PrivateRead | ApiKeyAccess::Full => "private"@,
    }
}

impl ApiKeyAccess {
    /// Position of this level in the order of access levels.
    pub fn rank(&self) -> (r: u8)
        ensures
            r == access_rank(*self),
    {
        match self {
            ApiKeyAccess::NoAccess => 0,
            ApiKeyAccess::PublicRead => 1,
            ApiKeyAccess::PrivateRead => 2,
            ApiKeyAccess::Full => 3,
        }
    }

    /// The privacy level that a caller with this access may view:
    /// `"public"` for `NoAccess` and `PublicRead`, `"private"` otherwise.
    pub fn privacy_level(&self) -> (r: String)
        ensures
            r@ == exposure_word(*self),
    {
        match self {
            ApiKeyAccess::NoAccess | ApiKeyAccess::PublicRead => "public".to_string(),
            ApiKeyAccess::PrivateRead | ApiKeyAccess::Full => "private".to_string(),
        }
    }
}

/// Whether the path segments after `/v2/` fall in the resource group `part`.
pub open spec fn segments_in_part(part: Seq<char>, f: Seq<Seq<char>>) -> bool {
    if part == "system"@ {
        f.len() >= 2 && f[0] == "systems"@ && (f.len() == 2 || (f.len() == 3 && (f[2]
            == "settings"@ || f[2] == "autoproxy"@)) || f[2] == "guilds"@)
    } else if part == "members"@ {
        (f.len() == 3 && f[0] == "systems"@ && f[2] == "members"@) || (f.len() >= 1 && f[0]
            == "members"@ && !(f.len() >= 3 && f[2] == "groups"@))
    } else if part == "groups"@ {
        (f.len() == 3 && f[0] == "systems"@ && f[2] == "groups"@) || (f.len() >= 1 && f[0]
            == "groups"@) || (f.len() >= 3 && f[0] == "members"@ && f[2] == "groups"@)
    } else if part == "switches"@ {
        f.len() >= 3 && f[0] == "systems"@ && ((f.len() == 3 && f[2] == "fronters"@) || f[2]
            == "switches"@)
    } else {
        false
    }
}

/// The segments of a path after its `/v2/` prefix.
pub open spec fn v2_segments(endpoint: Seq<char>) -> Seq<Seq<char>> {
    split_on(endpoint.skip(4), '/')
}

/// Whether `endpoint` starts with `/v2/`.
pub open spec fn is_v2(endpoint: Seq<char>) -> bool {
    endpoint.len() >= 4 && endpoint.take(4) == "/v2/"@
}

/// Whether the route `endpoint` belongs to the resource group `part`.
pub open spec fn part_path(part: Seq<char>, endpoint: Seq<char>) -> bool {
    is_v2(endpoint) && segments_in_part(part, v2_segments(endpoint))
}

/// Whether segment `i` exists and equals `lit`.
fn segment_is(f: &Vec<&str>, i: usize, lit: &str) -> (r: bool)
    ensures
        r == (i < f@.len() && f@[i as int]@ == lit@),
{
    if i < f.len() {
        str_eq(f[i], lit)
    } else {
        false
    }
}

/// Whether the route `endpoint` belongs to the resource group `part`
/// (`system`, `members`, `groups` or `switches`).
pub fn is_part_path(part: &str, endpoint: &str) -> (r: bool)
    ensures
        r == part_path(part@, endpoint@),
        !is_v2(endpoint@) ==> !r,
{
    let v2 = "/v2/";
    proof {
        reveal_strlit("/v2/");
    }
    if !starts_with(endpoint, v2) {
        return false;
    }
    let n = endpoint.unicode_len();
    let rest = endpoint.substring_char(4, n);
    let f = split_str(rest, '/');
    let ghost segs = f@.map_values(|p: &str| p@);
    proof {
        assert(rest@ =~= endpoint@.skip(4));
        assert(segs == v2_segments(endpoint@));
        assert(f@.len() == segs.len());
        assert forall|k: int| 0 <= k < f@.len() implies f@[k]@ == segs[k] by {}
    }
    let len = f.len();
    if str_eq(part, "system") {
        segment_is(&f, 0, "systems") && (len == 2 || (len == 3 && (segment_is(&f, 2, "settings")
            || segment_is(&f, 2, "autoproxy"))) || segment_is(&f, 2, "guilds"))
    } else if str_eq(part, "members") {
        (len == 3 && segment_is(&f, 0, "systems") && segment_is(&f, 2, "members")) || (
        segment_is(&f, 0, "members") && !segment_is(&f, 2, "groups"))
    } else if str_eq(part, "groups") {
        (len == 3 && segment_is(&f, 0, "systems") && segment_is(&f, 2, "groups")) || segment_is(
            &f,
            0,
            "groups",
        ) || (segment_is(&f, 0, "members") && segment_is(&f, 2, "groups"))
    } else if str_eq(part, "switches") {
        segment_is(&f, 0, "systems") && ((len == 3 && segment_is(&f, 2, "fronters"))
            || segment_is(&f, 2, "switches"))
    } else {
        false
    }
}

/// The HTTP method of a request, as far as access rules tell methods apart.
#[derive(Clone, Copy, Debug, PartialEq, Eq, Structural, Hash)]
pub enum Method {
    Get,
    Head,
    Post,
    Put,
    Patch,
    Delete,
    Options,
    Other,
}

/// The kind of an issued credential.
#[derive(Clone, Copy, Debug, PartialEq, Eq, Structural, Hash)]
pub enum ApiKeyType {
    /// A first-party dashboard credential, which is never scoped.
    Dashboard,
    /// A credential issued by a user, limited by its scopes.
    UserCreated,
}

/// An issued credential as stored.
#[derive(Clone, Debug)]
pub struct ApiKey {
    /// The token identifier.
    pub id: String,
    pub kind: ApiKeyType,
    /// Grants of the form `action:resource`, or `identify`.
    pub scopes: Vec<String>,
    /// The system that owns the credential.
    pub system: i32,
}

/// The access that one scope grants for `method` on `endpoint`.
pub open spec fn scope_access(method: Method, scope: Seq<char>, endpoint: Seq<char>) -> ApiKeyAccess {
    let p = split_on(scope, ':');
    if method == Method::Get && p.len() == 1 && p[0] == "identify"@ {
        if endpoint == "/v2/systems/:system_id"@ {
            ApiKeyAccess::PublicRead
        } else {
            ApiKeyAccess::NoAccess
        }
    } else if p.len() == 2 && (p[1] == "all"@ || part_path(p[1], endpoint)) {
        if method == Method::Get && p[0] == "publicread"@ {
            ApiKeyAccess::PublicRead
        } else if method == Method::Get && p[0] == "read"@ {
            ApiKeyAccess::PrivateRead
        } else if p[0] == "write"@ {
            ApiKeyAccess::Full
        } else {
            ApiKeyAccess::NoAccess
        }
    } else {
        ApiKeyAccess::NoAccess
    }
}

/// The greatest access that any of `scopes` grants.
pub open spec fn scopes_access(method: Method, scopes: Seq<String>, endpoint: Seq<char>) -> ApiKeyAccess
    decreases scopes.len(),
{
    if scopes.len() == 0 {
        ApiKeyAccess::NoAccess
    } else {
        access_max(
            scopes_access(method, scopes.drop_last(), endpoint),
            scope_access(method, scopes.last()@, endpoint),
        )
    }
}

/// The access that `key` grants for `method` on `endpoint`.
pub open spec fn key_access(key: ApiKey, method: Method, endpoint: Seq<char>) -> ApiKeyAccess {
    if key.kind == ApiKeyType::Dashboard {
        ApiKeyAccess::Full
    } else {
        scopes_access(method, key.scopes@, endpoint)
    }
}

/// The access that one scope grants for `method` on `endpoint`.
fn scope_can_access(method: Method, scope: &str, endpoint: &str) -> (r: ApiKeyAccess)
    ensures
        r == scope_access(method, scope@, endpoint@),
{
    let p = split_str(scope, ':');
    let ghost segs = p@.map_values(|q: &str| q@);
    proof {
        assert(segs == split_on(scope@, ':'));
        assert(p@.len() == segs.len());
        assert forall|k: int| 0 <= k < p@.len() implies p@[k]@ == segs[k] by {}
    }
    if method == Method::Get && p.len() == 1 && str_eq(p[0], "identify") {
        if str_eq(endpoint, "/v2/systems/:system_id") {
            ApiKeyAccess::PublicRead
        } else {
            ApiKeyAccess::NoAccess
        }
    } else if p.len() == 2 && (str_eq(p[1], "all") || is_part_path(p[1], endpoint)) {
        if method == Method::Get && str_eq(p[0], "publicread") {
            ApiKeyAccess::PublicRead
        } else if method == Method::Get && str_eq(p[0], "read") {
            ApiKeyAccess::PrivateRead
        } else if str_eq(p[0], "write") {
            ApiKeyAccess::Full
        } else {
            ApiKeyAccess::NoAccess
        }
    } else {
        ApiKeyAccess::NoAccess
    }
}

/// The greatest access that `token` grants for `method` on the route
/// `endpoint`: `Full` for a dashboard credential, else the greatest grant of
/// its scopes.
pub fn apikey_can_access(token: &ApiKey, method: Method, endpoint: &str) -> (r: ApiKeyAccess)
    ensures
        r == key_access(*token, method, endpoint@),
{
    if token.kind == ApiKeyType::Dashboard {
        return ApiKeyAccess::Full;
    }
    let mut access = ApiKeyAccess::NoAccess;
    let n = token.scopes.len();
    let mut i: usize = 0;
    while i < n
        invariant
            n == token.scopes@.len(),
            i <= n,
            access == scopes_access(method, token.scopes@.take(i as int), endpoint@),
        decreases n - i,
    {
        let na = scope_can_access(method, token.scopes[i].as_str(), endpoint);
        proof {
            assert(token.scopes@.take(i + 1).drop_last() =~= token.scopes@.take(i as int));
        }
        if na.rank() > access.rank() {
            access = na;
        }
        i = i + 1;
    }
    proof {
        assert(token.scopes@.take(n as int) =~= token.scopes@);
    }
    access
}

/// The character of a decimal digit.
pub open spec fn digit_char(d: nat) -> char {
    ((48 + d) as u8) as char
}

/// The decimal digits of `n`, most significant first.
pub open spec fn digits(n: nat) -> Seq<char>
    decreases n,
{
    if n < 10 {
        seq![digit_char(n)]
    } else {
        digits(n / 10).push(digit_char(n % 10))
    }
}

/// The decimal form of `n`, with a leading `-` when it is negative.
pub open spec fn decimal(n: int) -> Seq<char> {
    if n < 0 {
        seq!['-'] + digits((-n) as nat)
    } else {
        digits(n as nat)
    }
}

/// Relies on `ToString::to_string` for `i32`, which writes the number in
/// decimal with a leading `-` when it is negative.
#[verifier::external_body]
fn decimal_string(n: i32) -> (r: String)
    ensures
        r@ == decimal(n as int),
{
    n.to_string()
}

/// The credential that a request presented, once the store has been asked.
#[derive(Clone, Debug)]
pub enum Credential {
    /// A signed bearer token whose identifier names a stored credential.
    Bearer { token_id: String, key: ApiKey },
    /// A legacy token that the store resolved to its system.
    Legacy { system: i32 },
    /// No credential that the store knows.
    Unrecognized,
}

/// What authentication hands on: the request headers, and the label under
/// which the caller authenticated, if it did.
#[derive(Debug)]
pub struct AuthnzOutcome {
    pub headers: Vec<(String, String)>,
    pub authenticated: Option<String>,
}

/// The headers through which authentication tells handlers who is calling.
pub open spec fn identity_header_names() -> Seq<Seq<char>> {
    seq!["x-pluralkit-systemid"@, "x-pluralkit-tid"@, "x-pluralkit-privacylevel"@]
}

/// The identity headers that a credential earns on one request.
pub open spec fn granted_headers(cred: Credential, method: Method, endpoint: Seq<char>) -> Seq<
    (Seq<char>, Seq<char>),
> {
    match cred {
        Credential::Bearer { token_id, key } => {
            let access = key_access(key, method, endpoint);
            let tid = seq![("x-pluralkit-tid"@, token_id@)];
            if access == ApiKeyAccess::NoAccess {
                tid
            } else {
                tid + seq![
                    ("x-pluralkit-systemid"@, decimal(key.system as int)),
                    ("x-pluralkit-privacylevel"@, exposure_word(access)),
                ]
            }
        },
        Credential::Legacy { system } => seq![
            ("x-pluralkit-systemid"@, decimal(system as int)),
            ("x-pluralkit-privacylevel"@, "private"@),
        ],
        Credential::Unrecognized => Seq::empty(),
    }
}

/// The label under which a credential authenticates.
pub open spec fn authenticated_as(cred: Credential) -> Option<Seq<char>> {
    match cred {
        Credential::Bearer { token_id, .. } => Some(token_id@),
        Credential::Legacy { .. } => Some("legacytoken"@),
        Credential::Unrecognized => None,
    }
}

/// The view of an optional label.
pub open spec fn label_view(l: Option<String>) -> Option<Seq<char>> {
    match l {
        Some(s) => Some(s@),
        None => None,
    }
}

/// The request headers handed on after authentication.
pub open spec fn authnz_headers(
    h: Seq<(Seq<char>, Seq<char>)>,
    cred: Credential,
    method: Method,
    endpoint: Seq<char>,
) -> Seq<(Seq<char>, Seq<char>)> {
    without_names(h, identity_header_names()) + granted_headers(cred, method, endpoint)
}

/// Authenticates a request to the route `endpoint`. Identity headers that the
/// caller sent are dropped. A bearer credential stamps its token identifier,
/// and its system and privacy level when it grants any access here; a legacy
/// token stamps its system and private exposure.
pub fn authnz(method: Method, endpoint: &str, headers: &Vec<(String, String)>, credential: &Credential) -> (r: AuthnzOutcome)
    ensures
        header_seq(r.headers@) == authnz_headers(header_seq(headers@), *credential, method, endpoint@),
        label_view(r.authenticated) == authenticated_as(*credential),
{
    let names = vec!["x-pluralkit-systemid", "x-pluralkit-tid", "x-pluralkit-privacylevel"];
    proof {
        assert(name_seq(names@) =~= identity_header_names());
    }
    let mut out = remove_headers(headers, &names);
    let ghost kept = header_seq(out@);
    match credential {
        Credential::Bearer { token_id, key } => {
            out.push(("x-pluralkit-tid".to_string(), token_id.clone()));
            let access = apikey_can_access(key, method, endpoint);
            if access != ApiKeyAccess::NoAccess {
                out.push(("x-pluralkit-systemid".to_string(), decimal_string(key.system)));
                out.push(("x-pluralkit-privacylevel".to_string(), access.privacy_level()));
            }
            assert(header_seq(out@) =~= authnz_headers(header_seq(headers@), *credential, method, endpoint@));
            AuthnzOutcome { headers: out, authenticated: Some(token_id.clone()) }
        },
        Credential::Legacy { system } => {
            out.push(("x-pluralkit-systemid".to_string(), decimal_string(*system)));
            out.push(("x-pluralkit-privacylevel".to_string(), "private".to_string()));
            assert(header_seq(out@) =~= authnz_headers(header_seq(headers@), *credential, method, endpoint@));
            AuthnzOutcome { headers: out, authenticated: Some("legacytoken".to_string()) }
        },
        Credential::Unrecognized => {
            assert(header_seq(out@) =~= authnz_headers(header_seq(headers@), *credential, method, endpoint@));
            AuthnzOutcome { headers: out, authenticated: None }
        },
    }
}

/// The header through which a response tells the request logger that the
/// caller authenticated.
pub const DID_AUTHENTICATE_HEADER: &'static str = "x-pluralkit-didauthenticate";

/// The response headers that report how a caller authenticated.
pub open spec fn response_stamp(label: Option<Seq<char>>) -> Seq<(Seq<char>, Seq<char>)> {
    match label {
        Some(l) => seq![(DID_AUTHENTICATE_HEADER@, "1"@), ("X-PluralKit-Authentication"@, l)],
        None => Seq::empty(),
    }
}

/// The headers to set on the response: for an authenticated caller the
/// authentication marker and the label; none otherwise.
pub fn authentication_response_headers(authenticated: &Option<String>) -> (r: Vec<(String, String)>)
    ensures
        header_seq(r@) == response_stamp(label_view(*authenticated)),
{
    let mut out: Vec<(String, String)> = Vec::new();
    match authenticated {
        Some(label) => {
            out.push((DID_AUTHENTICATE_HEADER.to_string(), "1".to_string()));
            out.push(("X-PluralKit-Authentication".to_string(), label.clone()));
        },
        None => {},
    }
    assert(header_seq(out@) =~= response_stamp(label_view(*authenticated)));
    out
}

/// The token of an `Authorization` value of the form `Bearer <token>`.
pub fn bearer_token(authorization: &str) -> (r: Option<&str>)
    ensures
        r is Some <==> "Bearer "@.len() <= authorization@.len() && authorization@.take(
            "Bearer "@.len() as int,
        ) == "Bearer "@,
        r matches Some(t) ==> authorization@ == "Bearer "@ + t@,
{
    proof {
        reveal_strlit("Bearer ");
    }
    if !starts_with(authorization, "Bearer ") {
        return None;
    }
    let n = authorization.unicode_len();
    let t = authorization.substring_char(7, n);
    assert(authorization@ =~= "Bearer "@ + t@);
    Some(t)
}

} // verus!
