use vstd::prelude::*;

use crate::authnz::{
    access_rank, authenticated_as, authnz_headers, granted_headers, identity_header_names,
    key_access, part_path, response_stamp, scope_access, scopes_access, v2_segments, is_v2,
    ApiKey, ApiKeyAccess, Credential, Method,
};
use crate::headers::{is_first_named, lemma_without_names, named_any, without_names};
use crate::internal::{gate_forwarded, gate_passes, internal_marker_names, is_internal_path};
use crate::privacy::PrivacyLevel;
use crate::system::{gated, opt_text, shown, system_json, JsonView, System};
use crate::text::{lemma_split_nonempty, same_name, split_on};

verus! {

/// Splitting at a separator splits the pieces on either side independently.
pub proof fn lemma_split_concat(a: Seq<char>, b: Seq<char>, sep: char)
    ensures
        split_on(a.push(sep) + b, sep) == split_on(a, sep) + split_on(b, sep),
    decreases b.len(),
{
    if b.len() == 0 {
        assert(a.push(sep) + b =~= a.push(sep));
        assert(a.push(sep).drop_last() =~= a);
        assert(split_on(a, sep) + split_on(b, sep) =~= split_on(a, sep).push(Seq::<char>::empty()));
    } else {
        let x = a.push(sep) + b.drop_last();
        assert((a.push(sep) + b).drop_last() =~= x);
        lemma_split_concat(a, b.drop_last(), sep);
        lemma_split_nonempty(b.drop_last(), sep);
        lemma_split_nonempty(a, sep);
        let l = split_on(a, sep);
        let r = split_on(b.drop_last(), sep);
        if b.last() == sep {
            assert((l + r).push(Seq::<char>::empty()) =~= l + r.push(Seq::<char>::empty()));
        } else {
            assert((l + r).update((l + r).len() - 1, (l + r).last().push(b.last())) =~= l
                + r.update(r.len() - 1, r.last().push(b.last())));
        }
    }
}

/// A text without the separator is one piece.
pub proof fn lemma_split_whole(s: Seq<char>, sep: char)
    requires
        forall|i: int| 0 <= i < s.len() ==> s[i] != sep,
    ensures
        split_on(s, sep) == seq![s],
    decreases s.len(),
{
    if s.len() == 0 {
        assert(s =~= Seq::<char>::empty());
    } else {
        assert(s[s.len() - 1] != sep);
        lemma_split_whole(s.drop_last(), sep);
        assert(s.drop_last().push(s.last()) =~= s);
        assert(seq![s.drop_last()].update(0, s.drop_last().push(s.last())) =~= seq![s]);
    }
}

/// A path whose segments after `/v2/` read `members`, any id, `groups`, and
/// anything after, belongs to the groups and not to the members.
pub proof fn lemma_member_groups_carve_out(endpoint: Seq<char>)
    requires
        is_v2(endpoint),
        v2_segments(endpoint).len() >= 3,
        v2_segments(endpoint)[0] == "members"@,
        v2_segments(endpoint)[2] == "groups"@,
    ensures
        !part_path("members"@, endpoint),
        part_path("groups"@, endpoint),
{
    reveal_strlit("system");
    reveal_strlit("members");
    reveal_strlit("groups");
    assert("groups"@[0] != "system"@[0]);
}

/// No path outside `/v2/` belongs to any resource group.
pub proof fn lemma_non_v2_in_no_part(part: Seq<char>, endpoint: Seq<char>)
    requires
        !is_v2(endpoint),
    ensures
        !part_path(part, endpoint),
{
}

/// A dashboard credential has full access to every route with every method.
pub proof fn lemma_dashboard_full(key: ApiKey, method: Method, endpoint: Seq<char>)
    requires
        key.kind == crate::authnz::ApiKeyType::Dashboard,
    ensures
        key_access(key, method, endpoint) == ApiKeyAccess::Full,
{
}

/// The access of a set of scopes is at least that of each of its scopes.
pub proof fn lemma_scopes_access_at_least(
    method: Method,
    scopes: Seq<String>,
    endpoint: Seq<char>,
    i: int,
)
    requires
        0 <= i < scopes.len(),
    ensures
        access_rank(scopes_access(method, scopes, endpoint)) >= access_rank(
            scope_access(method, scopes[i]@, endpoint),
        ),
    decreases scopes.len(),
{
    if i < scopes.len() - 1 {
        lemma_scopes_access_at_least(method, scopes.drop_last(), endpoint, i);
    }
}

/// A credential holding `publicread:all` and `write:groups` reads every route
/// at least publicly, and has full access to every route of the groups.
pub proof fn lemma_public_read_and_group_write(
    key: ApiKey,
    method: Method,
    endpoint: Seq<char>,
    i: int,
    j: int,
)
    requires
        0 <= i < key.scopes@.len(),
        0 <= j < key.scopes@.len(),
        key.scopes@[i]@ == "publicread:all"@,
        key.scopes@[j]@ == "write:groups"@,
    ensures
        method == Method::Get ==> access_rank(key_access(key, method, endpoint)) >= 1,
        part_path("groups"@, endpoint) ==> key_access(key, method, endpoint) == ApiKeyAccess::Full,
{
    reveal_strlit("publicread:all");
    reveal_strlit("publicread");
    reveal_strlit("all");
    reveal_strlit("write:groups");
    reveal_strlit("write");
    reveal_strlit("groups");
    reveal_strlit("read");
    reveal_strlit("identify");
    assert("publicread:all"@ =~= "publicread"@.push(':') + "all"@);
    assert("write:groups"@ =~= "write"@.push(':') + "groups"@);
    lemma_split_concat("publicread"@, "all"@, ':');
    lemma_split_concat("write"@, "groups"@, ':');
    lemma_split_whole("publicread"@, ':');
    lemma_split_whole("all"@, ':');
    lemma_split_whole("write"@, ':');
    lemma_split_whole("groups"@, ':');
    assert(split_on("publicread:all"@, ':') =~= seq!["publicread"@, "all"@]);
    assert(split_on("write:groups"@, ':') =~= seq!["write"@, "groups"@]);
    assert("write"@ != "publicread"@);
    assert("write"@ != "read"@);
    if key.kind != crate::authnz::ApiKeyType::Dashboard {
        lemma_scopes_access_at_least(method, key.scopes@, endpoint, i);
        lemma_scopes_access_at_least(method, key.scopes@, endpoint, j);
    }
}

/// Every identity header that authentication hands on was stamped by it from
/// the credential: none that the caller sent survives.
pub proof fn lemma_forged_identity_dropped(
    h: Seq<(Seq<char>, Seq<char>)>,
    cred: Credential,
    method: Method,
    endpoint: Seq<char>,
)
    ensures
        ({
            let out = authnz_headers(h, cred, method, endpoint);
            let kept = without_names(h, identity_header_names());
            forall|i: int|
                0 <= i < out.len() && named_any(#[trigger] out[i].0, identity_header_names())
                    ==> i >= kept.len() && out[i] == granted_headers(cred, method, endpoint)[i
                    - kept.len()]
        }),
{
    lemma_without_names(h, identity_header_names());
    let out = authnz_headers(h, cred, method, endpoint);
    let kept = without_names(h, identity_header_names());
    assert forall|i: int|
        0 <= i < out.len() && named_any(#[trigger] out[i].0, identity_header_names()) implies i
        >= kept.len() && out[i] == granted_headers(cred, method, endpoint)[i - kept.len()] by {
        if i < kept.len() {
            assert(out[i] == kept[i]);
        }
    }
}

/// The internal marker reaches the next stage only as the guard's own, on an
/// internal route: one that the caller sent never survives.
pub proof fn lemma_forged_internal_marker_dropped(path: Seq<char>, h: Seq<(Seq<char>, Seq<char>)>)
    ensures
        forall|i: int|
            0 <= i < gate_forwarded(path, h).len() && named_any(
                #[trigger] gate_forwarded(path, h)[i].0,
                internal_marker_names(),
            ) ==> is_internal_path(path) && gate_forwarded(path, h)[i] == (
                "x-pluralkit-internal"@,
                "1"@,
            ),
{
    lemma_without_names(h, internal_marker_names());
    let kept = without_names(h, internal_marker_names());
    assert forall|i: int|
        0 <= i < gate_forwarded(path, h).len() && named_any(
            #[trigger] gate_forwarded(path, h)[i].0,
            internal_marker_names(),
        ) implies is_internal_path(path) && gate_forwarded(path, h)[i] == (
        "x-pluralkit-internal"@,
        "1"@,
    ) by {
        if i < kept.len() {
            assert(gate_forwarded(path, h)[i] == kept[i]);
        }
    }
}

/// A recognised bearer token without any access here still stamps its token
/// identifier and counts as authenticated, but stamps no system and no
/// privacy level.
pub proof fn lemma_bearer_without_access(
    h: Seq<(Seq<char>, Seq<char>)>,
    token_id: String,
    key: ApiKey,
    method: Method,
    endpoint: Seq<char>,
)
    requires
        key_access(key, method, endpoint) == ApiKeyAccess::NoAccess,
    ensures
        ({
            let cred = Credential::Bearer { token_id, key };
            let out = authnz_headers(h, cred, method, endpoint);
            &&& out.last() == ("x-pluralkit-tid"@, token_id@)
            &&& forall|i: int|
                0 <= i < out.len() ==> !same_name(#[trigger] out[i].0, "x-pluralkit-systemid"@)
                    && !same_name(out[i].0, "x-pluralkit-privacylevel"@)
            &&& authenticated_as(cred) == Some(token_id@)
            &&& response_stamp(authenticated_as(cred)).len() == 2
        }),
{
    reveal_strlit("x-pluralkit-tid");
    reveal_strlit("x-pluralkit-systemid");
    reveal_strlit("x-pluralkit-privacylevel");
    let cred = Credential::Bearer { token_id, key };
    let out = authnz_headers(h, cred, method, endpoint);
    let kept = without_names(h, identity_header_names());
    lemma_without_names(h, identity_header_names());
    assert forall|i: int| 0 <= i < out.len() implies !same_name(
        #[trigger] out[i].0,
        "x-pluralkit-systemid"@,
    ) && !same_name(out[i].0, "x-pluralkit-privacylevel"@) by {
        if i < kept.len() {
            assert(out[i] == kept[i]);
            if same_name(out[i].0, "x-pluralkit-systemid"@) {
                assert(same_name(out[i].0, identity_header_names()[0]));
            }
            if same_name(out[i].0, "x-pluralkit-privacylevel"@) {
                assert(same_name(out[i].0, identity_header_names()[2]));
            }
        } else {
            assert(out[i] == ("x-pluralkit-tid"@, token_id@));
        }
    }
}

/// A legacy token always grants private exposure and authenticates under the
/// label `legacytoken`, whatever system it resolved to.
pub proof fn lemma_legacy_private(
    h: Seq<(Seq<char>, Seq<char>)>,
    system: i32,
    method: Method,
    endpoint: Seq<char>,
)
    ensures
        ({
            let cred = Credential::Legacy { system };
            let out = authnz_headers(h, cred, method, endpoint);
            &&& out.last() == ("x-pluralkit-privacylevel"@, "private"@)
            &&& response_stamp(authenticated_as(cred))[1] == ("X-PluralKit-Authentication"@,
                "legacytoken"@)
        }),
{
}

/// Without the shared secret as its internal secret header, a request fails
/// the guard, whatever client address header it carries.
pub proof fn lemma_gate_needs_secret(h: Seq<(Seq<char>, Seq<char>)>, secret: Seq<char>)
    requires
        forall|i: int| is_first_named(h, "x-pluralkit-internalauth"@, i) ==> #[trigger] h[i].1 != secret,
    ensures
        !gate_passes(h, secret),
{
}

/// Whether no entry of `j` has the key `k`.
pub open spec fn avoids(j: Seq<(Seq<char>, JsonView)>, k: Seq<char>) -> bool {
    forall|i: int| 0 <= i < j.len() ==> #[trigger] j[i].0 != k
}

proof fn lemma_avoids_concat(a: Seq<(Seq<char>, JsonView)>, b: Seq<(Seq<char>, JsonView)>, k: Seq<char>)
    requires
        avoids(a, k),
        avoids(b, k),
    ensures
        avoids(a + b, k),
{
    assert forall|i: int| 0 <= i < (a + b).len() implies #[trigger] (a + b)[i].0 != k by {
        if i < a.len() {
            assert((a + b)[i] == a[i]);
        } else {
            assert((a + b)[i] == b[i - a.len()]);
        }
    }
}

/// The JSON entries of a system avoid a key that none of their parts holds.
proof fn lemma_json_avoids(s: System, exposure: PrivacyLevel, k: Seq<char>)
    requires
        k != "id"@,
        k != "uuid"@,
        k != "tag"@,
        k != "color"@,
        k != "webhook_url"@,
        k != "created"@,
        shown(s.name_privacy, exposure) ==> k != "name"@,
        shown(s.description_privacy, exposure) ==> k != "description"@,
        shown(s.pronoun_privacy, exposure) ==> k != "pronouns"@,
        shown(s.avatar_privacy, exposure) ==> k != "avatar_url"@,
        shown(s.banner_privacy, exposure) ==> k != "banner_image"@,
    ensures
        avoids(system_json(s, exposure), k),
{
    let p1 = seq![("id"@, JsonView::Text(s.hid@)), ("uuid"@, JsonView::Uuid(s.uuid))];
    let p2 = gated(("name"@, opt_text(s.name)), s.name_privacy, exposure);
    let p3 = gated(("description"@, opt_text(s.description)), s.description_privacy, exposure);
    let p4 = seq![("tag"@, opt_text(s.tag))];
    let p5 = gated(("pronouns"@, opt_text(s.pronouns)), s.pronoun_privacy, exposure);
    let p6 = gated(("avatar_url"@, opt_text(s.avatar_url)), s.avatar_privacy, exposure);
    let p7 = gated(("banner_image"@, opt_text(s.banner_image)), s.banner_privacy, exposure);
    let p8 = seq![
        ("color"@, opt_text(s.color)),
        ("webhook_url"@, opt_text(s.webhook_url)),
        ("created"@, JsonView::Timestamp(s.created)),
    ];
    assert(avoids(p1, k));
    assert(avoids(p4, k));
    assert(avoids(p8, k));
    lemma_avoids_concat(p1, p2, k);
    lemma_avoids_concat(p1 + p2, p3, k);
    lemma_avoids_concat(p1 + p2 + p3, p4, k);
    lemma_avoids_concat(p1 + p2 + p3 + p4, p5, k);
    lemma_avoids_concat(p1 + p2 + p3 + p4 + p5, p6, k);
    lemma_avoids_concat(p1 + p2 + p3 + p4 + p5 + p6, p7, k);
    lemma_avoids_concat(p1 + p2 + p3 + p4 + p5 + p6 + p7, p8, k);
}

/// A caller with public exposure never sees the secrets of a system, nor a
/// field whose guard is private.
pub proof fn lemma_public_json_hides(s: System)
    ensures
        avoids(system_json(s, PrivacyLevel::Public), "token"@),
        avoids(system_json(s, PrivacyLevel::Public), "webhook_token"@),
        s.name_privacy == PrivacyLevel::Private ==> avoids(system_json(s, PrivacyLevel::Public), "name"@),
        s.description_privacy == PrivacyLevel::Private ==> avoids(system_json(s, PrivacyLevel::Public), "description"@),
        s.pronoun_privacy == PrivacyLevel::Private ==> avoids(system_json(s, PrivacyLevel::Public), "pronouns"@),
        s.avatar_privacy == PrivacyLevel::Private ==> avoids(system_json(s, PrivacyLevel::Public), "avatar_url"@),
        s.banner_privacy == PrivacyLevel::Private ==> avoids(system_json(s, PrivacyLevel::Public), "banner_image"@),
{
    reveal_strlit("id");
    reveal_strlit("uuid");
    reveal_strlit("name");
    reveal_strlit("description");
    reveal_strlit("tag");
    reveal_strlit("pronouns");
    reveal_strlit("avatar_url");
    reveal_strlit("banner_image");
    reveal_strlit("color");
    reveal_strlit("webhook_url");
    reveal_strlit("created");
    reveal_strlit("token");
    reveal_strlit("webhook_token");
    let x = PrivacyLevel::Public;
    assert("id"@.len() == 2 && "uuid"@.len() == 4 && "name"@.len() == 4);
    assert("description"@.len() == 11 && "tag"@.len() == 3 && "pronouns"@.len() == 8);
    assert("avatar_url"@.len() == 10 && "banner_image"@.len() == 12 && "color"@.len() == 5);
    assert("webhook_url"@.len() == 11 && "created"@.len() == 7 && "token"@.len() == 5);
    assert("webhook_token"@.len() == 13);
    assert("token"@[0] != "color"@[0]);
    lemma_json_avoids(s, x, "token"@);
    lemma_json_avoids(s, x, "webhook_token"@);
    if s.name_privacy == PrivacyLevel::Private {
        assert("name"@[0] != "uuid"@[0]);
        lemma_json_avoids(s, x, "name"@);
    }
    if s.description_privacy == PrivacyLevel::Private {
        assert("description"@[0] != "webhook_url"@[0]);
        lemma_json_avoids(s, x, "description"@);
    }
    if s.pronoun_privacy == PrivacyLevel::Private {
        lemma_json_avoids(s, x, "pronouns"@);
    }
    if s.avatar_privacy == PrivacyLevel::Private {
        lemma_json_avoids(s, x, "avatar_url"@);
    }
    if s.banner_privacy == PrivacyLevel::Private {
        lemma_json_avoids(s, x, "banner_image"@);
    }
}

} // verus!
