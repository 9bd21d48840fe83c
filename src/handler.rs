//! Resolution of a GUID carried in the `Host` header into a response.

use vstd::prelude::*;
use vstd::string::StrSliceExecFns;
use vstd::string::StringExecFns;
use crate::guid::{normalize, normalized};
use crate::request::{header_value, Context};
use crate::table::LookupTable;

verus! {

/// An outbound response: status code and plain-text body.
pub struct Response {
    pub status: u16,
    pub body: String,
}

/// Whether `s` occurs in `h` starting at index `i`.
pub open spec fn occurs_at(h: Seq<char>, s: Seq<char>, i: int) -> bool {
    0 <= i && i + s.len() <= h.len() && h.subrange(i, i + s.len()) == s
}

/// The first index, from `i` on, at which `s` occurs in `h`.
pub open spec fn find_from(h: Seq<char>, s: Seq<char>, i: int) -> Option<int>
    decreases h.len() + 1 - i,
{
    if i < 0 || i + s.len() > h.len() {
        None
    } else if occurs_at(h, s, i) {
        Some(i)
    } else {
        find_from(h, s, i + 1)
    }
}

/// The first index at which `s` occurs in `h`.
pub open spec fn first_occurrence(h: Seq<char>, s: Seq<char>) -> Option<int> {
    find_from(h, s, 0)
}

/// The body sent when a request carries no `Host` header.
pub open spec fn host_required_msg() -> Seq<char> {
    "Host header is required."@
}

/// The body sent when the host lacks the domain suffix.
pub open spec fn format_msg(suffix: Seq<char>) -> Seq<char> {
    "Required host header format is: [guid]"@ + suffix
}

/// The body sent when no URL is filed under `key`, the lookup key of the
/// token `token` that the client sent.
pub open spec fn not_found_msg(token: Seq<char>, key: Seq<char>) -> Seq<char> {
    "Guid: \""@ + token + "\" not found (key \""@ + key + "\")"@
}

/// Status and body of the response to a request whose `Host` header is
/// `host`, for a table `table` and a domain suffix `suffix`.
pub open spec fn resolution(
    table: Map<Seq<char>, Seq<char>>,
    suffix: Seq<char>,
    host: Option<Seq<char>>,
) -> (u16, Seq<char>) {
    match host {
        None => (400, host_required_msg()),
        Some(h) => match first_occurrence(h, suffix) {
            None => (400, format_msg(suffix)),
            Some(i) => {
                let key = normalized(h.take(i));
                if table.contains_key(key) {
                    (200, table[key])
                } else {
                    (404, not_found_msg(h.take(i), key))
                }
            },
        },
    }
}

/// What `find_from` returns: the first occurrence from `i` on, if any.
pub proof fn lemma_find_from(h: Seq<char>, s: Seq<char>, i: int)
    requires
        0 <= i,
    ensures
        match find_from(h, s, i) {
            Some(k) => i <= k && occurs_at(h, s, k) && forall|j: int|
                i <= j < k ==> !#[trigger] occurs_at(h, s, j),
            None => forall|j: int| i <= j ==> !#[trigger] occurs_at(h, s, j),
        },
    decreases h.len() + 1 - i,
{
    if i + s.len() <= h.len() && !occurs_at(h, s, i) {
        lemma_find_from(h, s, i + 1);
    }
}

/// Whether `s` occurs in `h` at index `i`.
pub(crate) fn occurs_here(h: &str, s: &str, i: usize, hn: usize, sn: usize) -> (r: bool)
    requires
        hn == h@.len(),
        sn == s@.len(),
        i + sn <= hn,
    ensures
        r == occurs_at(h@, s@, i as int),
{
    let mut j: usize = 0;
    while j < sn
        invariant
            hn == h@.len(),
            sn == s@.len(),
            i + sn <= hn,
            j <= sn,
            h@.subrange(i as int, i + j) =~= s@.take(j as int),
        decreases sn - j,
    {
        if h.get_char(i + j) != s.get_char(j) {
            assert(h@.subrange(i as int, i + sn)[j as int] != s@[j as int]);
            return false;
        }
        j = j + 1;
        assert(h@.subrange(i as int, i + j) =~= s@.take(j as int));
    }
    assert(s@.take(sn as int) =~= s@);
    true
}

/// The first index at which `s` occurs in `h`, counted in characters.
pub fn find_suffix(h: &str, s: &str) -> (r: Option<usize>)
    ensures
        match r {
            Some(i) => first_occurrence(h@, s@) == Some(i as int),
            None => first_occurrence(h@, s@) is None,
        },
{
    let hn = h.unicode_len();
    let sn = s.unicode_len();
    if sn > hn {
        return None;
    }
    let mut i: usize = 0;
    while i <= hn - sn
        invariant
            hn == h@.len(),
            sn == s@.len(),
            sn <= hn,
            i <= hn - sn + 1,
            first_occurrence(h@, s@) == find_from(h@, s@, i as int),
        decreases hn - sn + 1 - i,
    {
        if occurs_here(h, s, i, hn, sn) {
            return Some(i);
        }
        if i == hn - sn {
            assert(find_from(h@, s@, i as int + 1) is None);
            return None;
        }
        i = i + 1;
    }
    assert(find_from(h@, s@, i as int) is None);
    None
}

/// The response to a request whose `Host` header is `host`: 400 without a
/// host or without the suffix, else 200 with the URL filed under the
/// normalized token before the suffix, or 404 naming that key.
pub fn resolve_host(table: &LookupTable, suffix: &str, host: Option<&str>) -> (r: Response)
    ensures
        (r.status, r.body@) == resolution(table@, suffix@, match host {
            Some(h) => Some(h@),
            None => None,
        }),
{
    match host {
        None => Response { status: 400, body: String::from_str("Host header is required.") },
        Some(h) => match find_suffix(h, suffix) {
            None => {
                let mut body = String::from_str("Required host header format is: [guid]");
                body.append(suffix);
                Response { status: 400, body }
            },
            Some(i) => {
                proof {
                    lemma_find_from(h@, suffix@, 0);
                }
                let token = h.substring_char(0, i);
                let key = normalize(token);
                match table.get(key.as_str()) {
                    Some(url) => Response { status: 200, body: url.clone() },
                    None => {
                        let mut body = String::from_str("Guid: \"");
                        body.append(token);
                        body.append("\" not found (key \"");
                        body.append(key.as_str());
                        body.append("\")");
                        Response { status: 404, body }
                    },
                }
            },
        },
    }
}

/// Resolves the GUID in the `Host` header of the context's request against
/// the shared lookup table.
pub fn resolve(ctx: &Context) -> (r: Response)
    ensures
        (r.status, r.body@) == resolution(
            ctx.spec_state().guids@,
            ctx.spec_state().suffix@,
            header_value(ctx.spec_req().headers_spec(), "host"@),
        ),
{
    let host = ctx.req().header("host");
    let table: &LookupTable = &ctx.state().guids;
    match host {
        Some(h) => resolve_host(table, ctx.state().suffix.as_str(), Some(h.as_str())),
        None => resolve_host(table, ctx.state().suffix.as_str(), None),
    }
}

/// The address the request came from: a `cf-connecting-ip` header set by
/// the proxy in front, else the peer address of the connection.
pub fn client_ip(ctx: &Context) -> (r: &String)
    ensures
        r@ == match header_value(ctx.spec_req().headers_spec(), "cf-connecting-ip"@) {
            Some(ip) => ip,
            None => ctx.spec_state().remote_ip@,
        },
{
    match ctx.req().header("cf-connecting-ip") {
        Some(ip) => ip,
        None => &ctx.state().remote_ip,
    }
}

/// Where the suffix first occurs in `token + suffix` at the end, that end is
/// where the token stops.
proof fn lemma_suffix_found_after(token: Seq<char>, suffix: Seq<char>)
    requires
        forall|j: int| 0 <= j < token.len() ==> !#[trigger] occurs_at(token + suffix, suffix, j),
    ensures
        first_occurrence(token + suffix, suffix) == Some(token.len() as int),
        (token + suffix).take(token.len() as int) == token,
{
    let h = token + suffix;
    assert(h.subrange(token.len() as int, (token.len() + suffix.len()) as int) =~= suffix);
    assert(occurs_at(h, suffix, token.len() as int));
    lemma_find_from(h, suffix, 0);
    assert(h.take(token.len() as int) =~= token);
}

/// A host `token + suffix` whose key is in the table resolves with 200 to
/// exactly the URL filed under that key. The suffix must not occur in the
/// host before the token's end.
pub proof fn lemma_known_guid_resolves(
    table: Map<Seq<char>, Seq<char>>,
    suffix: Seq<char>,
    token: Seq<char>,
)
    requires
        table.contains_key(normalized(token)),
        forall|j: int| 0 <= j < token.len() ==> !#[trigger] occurs_at(token + suffix, suffix, j),
    ensures
        resolution(table, suffix, Some(token + suffix)) == (200u16, table[normalized(token)]),
{
    lemma_suffix_found_after(token, suffix);
}

/// A host `token + suffix` whose key is not in the table resolves with 404,
/// and the body holds the token as the client sent it, and its key. The
/// suffix must not occur in the host before the token's end.
pub proof fn lemma_unknown_guid_not_found(
    table: Map<Seq<char>, Seq<char>>,
    suffix: Seq<char>,
    token: Seq<char>,
)
    requires
        !table.contains_key(normalized(token)),
        forall|j: int| 0 <= j < token.len() ==> !#[trigger] occurs_at(token + suffix, suffix, j),
    ensures
        resolution(table, suffix, Some(token + suffix)) == (404u16, not_found_msg(token, normalized(token))),
        exists|i: int| occurs_at(resolution(table, suffix, Some(token + suffix)).1, token, i),
        exists|i: int| occurs_at(resolution(table, suffix, Some(token + suffix)).1, normalized(token), i),
{
    lemma_suffix_found_after(token, suffix);
    let key = normalized(token);
    let body = not_found_msg(token, key);
    let head = "Guid: \""@;
    let mid = "\" not found (key \""@;
    reveal_strlit("Guid: \"");
    reveal_strlit("\" not found (key \"");
    assert(body.subrange(head.len() as int, (head.len() + token.len()) as int) =~= token);
    assert(occurs_at(body, token, head.len() as int));
    let at = head.len() + token.len() + mid.len();
    assert(body.subrange(at as int, (at + key.len()) as int) =~= key);
    assert(occurs_at(body, key, at as int));
    assert(resolution(table, suffix, Some(token + suffix)).1 == body);
    assert(occurs_at(resolution(table, suffix, Some(token + suffix)).1, token, head.len() as int));
    assert(occurs_at(resolution(table, suffix, Some(token + suffix)).1, key, at as int));
}

/// A token with neither dashes nor double quotes is looked up as it was
/// sent. The suffix must not occur in the host before the token's end.
pub proof fn lemma_clean_token_is_key(
    table: Map<Seq<char>, Seq<char>>,
    suffix: Seq<char>,
    token: Seq<char>,
)
    requires
        forall|i: int| 0 <= i < token.len() ==> token[i] != '-' && token[i] != '"',
        forall|j: int| 0 <= j < token.len() ==> !#[trigger] occurs_at(token + suffix, suffix, j),
    ensures
        resolution(table, suffix, Some(token + suffix)) == if table.contains_key(token) {
            (200u16, table[token])
        } else {
            (404u16, not_found_msg(token, token))
        },
{
    lemma_suffix_found_after(token, suffix);
    crate::guid::lemma_normalize_identity(token);
}

/// Sending a token already normalized is looked up under the same key as
/// sending the raw token: the status is the same, and so is the URL on a
/// hit. The suffix must not occur in either host before its token's end.
pub proof fn lemma_normalized_token_same_lookup(
    table: Map<Seq<char>, Seq<char>>,
    suffix: Seq<char>,
    token: Seq<char>,
)
    requires
        forall|j: int| 0 <= j < token.len() ==> !#[trigger] occurs_at(token + suffix, suffix, j),
        forall|j: int|
            0 <= j < normalized(token).len() ==> !#[trigger] occurs_at(normalized(token) + suffix, suffix, j),
    ensures
        resolution(table, suffix, Some(normalized(token) + suffix)).0
            == resolution(table, suffix, Some(token + suffix)).0,
        table.contains_key(normalized(token)) ==> resolution(table, suffix, Some(normalized(token) + suffix))
            == resolution(table, suffix, Some(token + suffix)),
{
    lemma_suffix_found_after(token, suffix);
    lemma_suffix_found_after(normalized(token), suffix);
    crate::guid::lemma_normalize_idempotent(token);
}

/// A request without a `Host` header gets 400, whatever the table and suffix.
pub proof fn lemma_missing_host_rejected(table: Map<Seq<char>, Seq<char>>, suffix: Seq<char>)
    ensures
        resolution(table, suffix, None) == (400u16, host_required_msg()),
{
}

/// A host in which the suffix does not occur gets 400 with the expected
/// format in the body, whatever the table.
pub proof fn lemma_missing_suffix_rejected(
    table: Map<Seq<char>, Seq<char>>,
    suffix: Seq<char>,
    host: Seq<char>,
)
    requires
        forall|j: int| !#[trigger] occurs_at(host, suffix, j),
    ensures
        resolution(table, suffix, Some(host)) == (400u16, format_msg(suffix)),
{
    lemma_find_from(host, suffix, 0);
}

/// The results of a batch of requests, resolved in the order `order` gives
/// (each entry an index into `hosts`).
pub open spec fn resolve_in_order(
    table: Map<Seq<char>, Seq<char>>,
    suffix: Seq<char>,
    hosts: Seq<Option<Seq<char>>>,
    order: Seq<int>,
) -> Seq<(u16, Seq<char>)> {
    order.map_values(|k: int| resolution(table, suffix, hosts[k]))
}

/// Resolutions against one table do not depend on one another: whatever the
/// order in which a batch of requests is served, each request gets the
/// result it gets when served alone, and two requests with the same host get
/// the same result.
pub proof fn lemma_resolutions_independent(
    table: Map<Seq<char>, Seq<char>>,
    suffix: Seq<char>,
    hosts: Seq<Option<Seq<char>>>,
    order: Seq<int>,
)
    requires
        forall|k: int| 0 <= k < order.len() ==> 0 <= #[trigger] order[k] < hosts.len(),
    ensures
        forall|k: int| 0 <= k < order.len() ==> #[trigger] resolve_in_order(table, suffix, hosts, order)[k]
            == resolution(table, suffix, hosts[order[k]]),
        forall|a: int, b: int|
            0 <= a < order.len() && 0 <= b < order.len() && hosts[order[a]] == hosts[order[b]]
                ==> #[trigger] resolve_in_order(table, suffix, hosts, order)[a]
                == #[trigger] resolve_in_order(table, suffix, hosts, order)[b],
{
}

} // verus!
