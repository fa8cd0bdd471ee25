use vstd::prelude::*;

use crate::headers::{find_header, has_header, header_seq, is_first_named, name_seq, remove_headers, without_names};
use crate::text::{starts_with, str_eq};

verus! {

/// What the guard of the internal namespace does with a request.
#[derive(Debug)]
pub enum GateOutcome {
    /// Hand the request on with these headers.
    Forward(Vec<(String, String)>),
    /// Answer at once with this status and body.
    Reject { status: u16, body: String },
}

/// The body of the answer to a caller that fails the guard.
pub open spec fn forbidden_body() -> Seq<char> {
    "{\"message\":\"go away\",\"code\":0}"@
}

/// The header that marks a request as trusted by the guard.
pub open spec fn internal_marker_names() -> Seq<Seq<char>> {
    seq!["x-pluralkit-internal"@]
}

/// Whether a route lies in the internal namespace.
pub open spec fn is_internal_path(path: Seq<char>) -> bool {
    "/internal"@.len() <= path.len() && path.take("/internal"@.len() as int) == "/internal"@
}

/// Whether the headers carry the credentials of a trusted internal caller: no
/// client address forwarded by the proxy, and the shared secret.
pub open spec fn gate_passes(h: Seq<(Seq<char>, Seq<char>)>, secret: Seq<char>) -> bool {
    !has_header(h, "x-pluralkit-client-ip"@) && exists|i: int|
        is_first_named(h, "x-pluralkit-internalauth"@, i) && #[trigger] h[i].1 == secret
}

/// The headers handed on by the guard: the caller's, without any internal
/// marker, plus the guard's own marker on an internal route.
pub open spec fn gate_forwarded(path: Seq<char>, h: Seq<(Seq<char>, Seq<char>)>) -> Seq<
    (Seq<char>, Seq<char>),
> {
    let kept = without_names(h, internal_marker_names());
    if is_internal_path(path) {
        kept.push(("x-pluralkit-internal"@, "1"@))
    } else {
        kept
    }
}

/// Guards the internal namespace. Any internal marker that the caller sent is
/// dropped. A route under `/internal` passes only when no client address
/// header is present and the internal secret header equals `secret`; it then
/// gains the marker `x-pluralkit-internal: 1`. Any other internal request is
/// answered with 403 and a fixed body. Other routes pass unchanged otherwise.
pub fn gate_internal_routes(path: &str, headers: &Vec<(String, String)>, secret: &str) -> (r:
    GateOutcome)
    ensures
        r is Reject <==> is_internal_path(path@) && !gate_passes(header_seq(headers@), secret@),
        r matches GateOutcome::Reject { status, body } ==> status == 403 && body@
            == forbidden_body(),
        r matches GateOutcome::Forward(h) ==> header_seq(h@) == gate_forwarded(
            path@,
            header_seq(headers@),
        ),
{
    let names = vec!["x-pluralkit-internal"];
    proof {
        assert(name_seq(names@) =~= internal_marker_names());
    }
    let mut kept = remove_headers(headers, &names);
    if !starts_with(path, "/internal") {
        return GateOutcome::Forward(kept);
    }
    let ghost h = header_seq(headers@);
    let fail_body = "{\"message\":\"go away\",\"code\":0}";
    if find_header(headers, "x-pluralkit-client-ip").is_some() {
        return GateOutcome::Reject { status: 403, body: fail_body.to_string() };
    }
    match find_header(headers, "x-pluralkit-internalauth") {
        Some(i) => {
            proof {
                assert forall|j: int| is_first_named(h, "x-pluralkit-internalauth"@, j) implies j
                    == i by {
                    if j < i {
                        assert(!crate::text::same_name(h[j].0, "x-pluralkit-internalauth"@));
                    } else if j > i {
                        assert(!crate::text::same_name(h[i as int].0, "x-pluralkit-internalauth"@));
                    }
                }
            }
            if !str_eq(headers[i].1.as_str(), secret) {
                return GateOutcome::Reject { status: 403, body: fail_body.to_string() };
            }
            assert(h[i as int].1 == secret@);
            assert(gate_passes(h, secret@));
        },
        None => {
            return GateOutcome::Reject { status: 403, body: fail_body.to_string() };
        },
    }
    let ghost before = kept@;
    kept.push(("x-pluralkit-internal".to_string(), "1".to_string()));
    proof {
        assert(header_seq(kept@) =~= header_seq(before).push(("x-pluralkit-internal"@, "1"@)));
    }
    GateOutcome::Forward(kept)
}

} // verus!
