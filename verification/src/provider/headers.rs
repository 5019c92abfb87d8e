//! The HTTP headers a provider request carries: the definition's own, the credentials', and
//! the bearer token, each checked as `http` checks header names and values.
use vstd::prelude::*;

use super::auth::ProviderCredentials;
use super::definition::{pairs_view, ProviderDefinition};

verus! {

/// What `HeaderName::from_bytes` makes of the UTF-8 bytes of `name`: the normalized
/// (lower-case) name, when it is a valid header name.
pub uninterp spec fn header_name_normal(name: Seq<char>) -> Option<Seq<char>>;

/// What `{:?}` writes for a string: it quoted, with special characters escaped.
pub uninterp spec fn debug_string(s: Seq<char>) -> Seq<char>;

/// Calls `HeaderName::from_bytes`; a valid name is returned normalized, as text.
#[verifier::external_body]
fn normalized_header_name(name: &str) -> (r: Option<String>)
    ensures
        match header_name_normal(name@) {
            Some(n) => r matches Some(s) && s@ == n,
            None => r is None,
        },
{
    match http::HeaderName::from_bytes(name.as_bytes()) {
        Ok(parsed) => Some(parsed.as_str().to_owned()),
        Err(_) => None,
    }
}

/// A character `HeaderValue::from_str` accepts: a tab, or anything from the space on but DEL
/// (every byte of a non-ASCII character is at least 128).
pub open spec fn header_value_char(c: char) -> bool {
    c == '\t' || (32 <= (c as u32) && (c as u32) != 127)
}

pub open spec fn header_value_valid(v: Seq<char>) -> bool {
    forall|i: int| 0 <= i < v.len() ==> header_value_char(#[trigger] v[i])
}

/// Calls `HeaderValue::from_str`: whether `value` is a valid header value (every byte a tab,
/// or at least 32 and not 127).
#[verifier::external_body]
fn header_value_ok(value: &str) -> (r: bool)
    ensures
        r == header_value_valid(value@),
{
    http::HeaderValue::from_str(value).is_ok()
}

/// Calls `str`'s `Debug` formatting.
#[verifier::external_body]
fn debug_text(s: &str) -> (r: String)
    ensures
        r@ == debug_string(s@),
{
    format!("{:?}", s)
}

pub open spec fn bad_name_message(what: Seq<char>, name: Seq<char>) -> Seq<char> {
    "invalid "@ + what + " header name "@ + debug_string(name) + ": invalid HTTP header name"@
}

pub open spec fn bad_value_message(what: Seq<char>, name: Seq<char>) -> Seq<char> {
    "invalid "@ + what + " header value for "@ + debug_string(name) + ": failed to parse header value"@
}

/// The headers `pairs` checked in order, names normalized; the first bad name or value is
/// refused (`what` says whose headers they are).
pub open spec fn header_list(pairs: Seq<(Seq<char>, Seq<char>)>, what: Seq<char>) -> Result<
    Seq<(Seq<char>, Seq<char>)>,
    Seq<char>,
>
    decreases pairs.len(),
{
    if pairs.len() == 0 {
        Ok(Seq::empty())
    } else {
        match header_list(pairs.drop_last(), what) {
            Err(m) => Err(m),
            Ok(l) => {
                let (n, v) = pairs.last();
                match header_name_normal(n) {
                    None => Err(bad_name_message(what, n)),
                    Some(k) => if header_value_valid(v) {
                        Ok(l.push((k, v)))
                    } else {
                        Err(bad_value_message(what, n))
                    },
                }
            },
        }
    }
}

/// Checking a header list keeps each header in its place with its value and its name
/// normalized, and refuses the list exactly when some name is no header name or some value no
/// header value.
pub proof fn law_header_list(pairs: Seq<(Seq<char>, Seq<char>)>, what: Seq<char>)
    ensures
        header_list(pairs, what) is Ok <==> forall|i: int|
            0 <= i < pairs.len() ==> header_name_normal(#[trigger] pairs[i].0) is Some && header_value_valid(
                pairs[i].1,
            ),
        header_list(pairs, what) matches Ok(l) ==> l.len() == pairs.len() && forall|i: int|
            0 <= i < pairs.len() ==> #[trigger] l[i].1 == pairs[i].1 && header_name_normal(pairs[i].0) == Some(
                l[i].0,
            ),
    decreases pairs.len(),
{
    if pairs.len() > 0 {
        let rest = pairs.drop_last();
        law_header_list(rest, what);
        let n = pairs.len() - 1;
        assert forall|i: int| 0 <= i < n implies #[trigger] pairs[i] == rest[i] by {}
        if header_list(rest, what) is Ok {
            let l = header_list(rest, what)->Ok_0;
            if header_list(pairs, what) is Ok {
                let l2 = header_list(pairs, what)->Ok_0;
                assert forall|i: int| 0 <= i < pairs.len() implies #[trigger] l2[i].1 == pairs[i].1
                    && header_name_normal(pairs[i].0) == Some(l2[i].0) by {
                    if i < n {
                        assert(l2[i] == l[i]);
                        assert(pairs[i] == rest[i]);
                    }
                }
            } else {
                assert(!(header_name_normal(pairs[n].0) is Some && header_value_valid(pairs[n].1)));
            }
        } else {
            let i = choose|i: int|
                0 <= i < rest.len() && !(header_name_normal(#[trigger] rest[i].0) is Some && header_value_valid(rest[i].1));
            assert(pairs[i] == rest[i]);
        }
    }
}

/// A request's headers are the definition's, then the credentials', then, with a bearer token,
/// the authorization header `Bearer <token>` last; without a token no authorization header is
/// added.
pub proof fn law_request_headers(
    definition_headers: Option<Seq<(Seq<char>, Seq<char>)>>,
    credential_headers: Seq<(Seq<char>, Seq<char>)>,
    bearer: Option<Seq<char>>,
)
    ensures
        request_headers(definition_headers, credential_headers, bearer) matches Ok(l) ==> ({
            let own = match definition_headers {
                Some(hs) => hs.len(),
                None => 0,
            };
            match bearer {
                Some(t) => l.len() == own + credential_headers.len() + 1 && l.last() == (AUTHORIZATION@, "Bearer "@ + t),
                None => l.len() == own + credential_headers.len(),
            }
        }),
        bearer matches Some(t) && !header_value_valid("Bearer "@ + t) ==> request_headers(
            definition_headers,
            credential_headers,
            bearer,
        ) is Err,
{
    if let Some(hs) = definition_headers {
        law_header_list(hs, "provider"@);
    }
    law_header_list(credential_headers, "credential"@);
}

fn message(prefix: &str, what: &str, middle: &str, name: &str, suffix: &str) -> (r: String)
    ensures
        r@ == prefix@ + what@ + middle@ + debug_string(name@) + suffix@,
{
    let mut m = prefix.to_owned();
    m.append(what);
    m.append(middle);
    let d = debug_text(name);
    m.append(d.as_str());
    m.append(suffix);
    m
}

/// Appends the checked headers `pairs` to `out`.
fn push_headers(out: &mut Vec<(String, String)>, pairs: &Vec<(String, String)>, what: &str) -> (r: Result<(), String>)
    ensures
        match header_list(pairs_view(pairs@), what@) {
            Ok(l) => r is Ok && pairs_view(final(out)@) == pairs_view(old(out)@) + l,
            Err(m) => r matches Err(e) && e@ == m,
        },
{
    let ghost start = pairs_view(out@);
    let ghost all = pairs_view(pairs@);
    let mut i: usize = 0;
    proof {
        assert(all.take(0) =~= Seq::<(Seq<char>, Seq<char>)>::empty());
        assert(start + Seq::<(Seq<char>, Seq<char>)>::empty() =~= start);
    }
    while i < pairs.len()
        invariant
            i <= pairs@.len(),
            all == pairs_view(pairs@),
            header_list(all.take(i as int), what@) matches Ok(l) && pairs_view(out@) == start + l,
        decreases pairs.len() - i,
    {
        let name = pairs[i].0.as_str();
        let value = pairs[i].1.as_str();
        proof {
            assert(all.take(i as int + 1).drop_last() =~= all.take(i as int));
            assert(all.take(i as int + 1).last() == (name@, value@));
        }
        let key = match normalized_header_name(name) {
            Some(k) => k,
            None => {
                proof {
                    reveal_strlit("invalid ");
                    reveal_strlit(" header name ");
                    reveal_strlit(": invalid HTTP header name");
                    lemma_list_err_extends(all, what@, i as int + 1);
                }
                return Err(message("invalid ", what, " header name ", name, ": invalid HTTP header name"));
            },
        };
        if !header_value_ok(value) {
            proof {
                lemma_list_err_extends(all, what@, i as int + 1);
            }
            return Err(message("invalid ", what, " header value for ", name, ": failed to parse header value"));
        }
        let ghost before = out@;
        out.push((key, value.to_owned()));
        proof {
            assert(pairs_view(out@) =~= pairs_view(before).push((key@, value@)));
        }
        i += 1;
    }
    proof {
        assert(all.take(pairs@.len() as int) =~= all);
    }
    Ok(())
}

proof fn lemma_list_err_extends(all: Seq<(Seq<char>, Seq<char>)>, what: Seq<char>, k: int)
    requires
        0 <= k <= all.len(),
        header_list(all.take(k), what) is Err,
    ensures
        header_list(all, what) == header_list(all.take(k), what),
    decreases all.len() - k,
{
    if k < all.len() {
        assert(all.take(k + 1).drop_last() =~= all.take(k));
        lemma_list_err_extends(all, what, k + 1);
    } else {
        assert(all.take(k) =~= all);
    }
}

/// The definition's extra headers, checked, names normalized (none without any).
pub fn build_header_map(headers: &Option<Vec<(String, String)>>) -> (r: Result<Vec<(String, String)>, String>)
    ensures
        match headers {
            None => r matches Ok(l) && l@.len() == 0,
            Some(hs) => match header_list(pairs_view(hs@), "provider"@) {
                Ok(l) => r matches Ok(v) && pairs_view(v@) == l,
                Err(m) => r matches Err(e) && e@ == m,
            },
        },
{
    let mut out: Vec<(String, String)> = Vec::new();
    match headers {
        Some(hs) => {
            push_headers(&mut out, hs, "provider")?;
            assert(pairs_view(out@) =~= Seq::<(Seq<char>, Seq<char>)>::empty() + header_list(
                pairs_view(hs@),
                "provider"@,
            )->Ok_0);
        },
        None => {},
    }
    Ok(out)
}

pub const AUTHORIZATION: &'static str = "authorization";

pub const BAD_BEARER: &'static str = "invalid bearer token header: failed to parse header value";

/// The headers of a provider request: the definition's, then the credentials' (a later one
/// replaces an earlier one of the same name when the map is built), then the bearer token.
pub open spec fn request_headers(
    definition_headers: Option<Seq<(Seq<char>, Seq<char>)>>,
    credential_headers: Seq<(Seq<char>, Seq<char>)>,
    bearer: Option<Seq<char>>,
) -> Result<Seq<(Seq<char>, Seq<char>)>, Seq<char>> {
    let own = match definition_headers {
        None => Ok(Seq::empty()),
        Some(hs) => header_list(hs, "provider"@),
    };
    match own {
        Err(m) => Err(m),
        Ok(a) => match header_list(credential_headers, "credential"@) {
            Err(m) => Err(m),
            Ok(b) => match bearer {
                None => Ok(a + b),
                Some(t) => if header_value_valid("Bearer "@ + t) {
                    Ok((a + b).push((AUTHORIZATION@, "Bearer "@ + t)))
                } else {
                    Err(BAD_BEARER@)
                },
            },
        },
    }
}

/// The headers to send with a request of `definition` under `credentials`.
pub fn build_request_headers(definition: &ProviderDefinition, credentials: &ProviderCredentials) -> (r: Result<
    Vec<(String, String)>,
    String,
>)
    ensures
        match request_headers(
            match definition.headers {
                Some(hs) => Some(pairs_view(hs@)),
                None => None,
            },
            pairs_view(credentials.headers@),
            match credentials.bearer_token {
                Some(t) => Some(t@),
                None => None,
            },
        ) {
            Ok(l) => r matches Ok(v) && pairs_view(v@) == l,
            Err(m) => r matches Err(e) && e@ == m,
        },
{
    let mut headers = build_header_map(&definition.headers)?;
    push_headers(&mut headers, &credentials.headers, "credential")?;
    match &credentials.bearer_token {
        Some(token) => {
            let mut value = "Bearer ".to_owned();
            value.append(token.as_str());
            if !header_value_ok(value.as_str()) {
                return Err(BAD_BEARER.to_owned());
            }
            let ghost before = headers@;
            headers.push((AUTHORIZATION.to_owned(), value));
            assert(pairs_view(headers@) =~= pairs_view(before).push((AUTHORIZATION@, "Bearer "@ + token@)));
        },
        None => {},
    }
    Ok(headers)
}

/// What a request asks of the provider's session handling.
#[derive(Debug, Clone, PartialEq, Eq)]
pub struct SessionRequestOptions {
    pub sticky_turn_state: Option<String>,
    pub turn_metadata: Option<String>,
    pub prefer_connection_reuse: Option<bool>,
    pub session_affinity: Option<String>,
}

pub const TURN_STATE_HEADER: &'static str = "x-mentra-turn-state";
pub const CODEX_TURN_STATE_HEADER: &'static str = "x-codex-turn-state";
pub const TURN_METADATA_HEADER: &'static str = "x-mentra-turn-metadata";
pub const CODEX_TURN_METADATA_HEADER: &'static str = "x-codex-turn-metadata";
pub const SESSION_AFFINITY_HEADER: &'static str = "x-mentra-session-affinity";
pub const CONNECTION_REUSE_HEADER: &'static str = "x-mentra-connection-reuse";

pub open spec fn opt_text(o: Option<String>) -> Option<Seq<char>> {
    match o {
        Some(s) => Some(s@),
        None => None,
    }
}

/// `value` under each of `names`, when it is a valid header value; nothing otherwise.
pub open spec fn valid_under(names: Seq<Seq<char>>, value: Option<Seq<char>>) -> Seq<(Seq<char>, Seq<char>)> {
    match value {
        Some(v) => if header_value_valid(v) {
            names.map_values(|n: Seq<char>| (n, v))
        } else {
            Seq::empty()
        },
        None => Seq::empty(),
    }
}

/// The session headers, in the order they are set: the turn state (the request's, else the
/// one the session stored), the turn metadata, the session affinity, each only when a valid
/// header value; then the connection-reuse preference.
pub open spec fn session_header_pairs(session: Option<SessionRequestOptions>, stored_turn_state: Option<Seq<char>>) -> Seq<
    (Seq<char>, Seq<char>),
> {
    let turn_state = match session {
        Some(o) => match o.sticky_turn_state {
            Some(t) => Some(t@),
            None => stored_turn_state,
        },
        None => stored_turn_state,
    };
    let metadata = match session {
        Some(o) => opt_text(o.turn_metadata),
        None => None,
    };
    let affinity = match session {
        Some(o) => opt_text(o.session_affinity),
        None => None,
    };
    let reuse: Seq<(Seq<char>, Seq<char>)> = match session {
        Some(o) => match o.prefer_connection_reuse {
            Some(true) => seq![(CONNECTION_REUSE_HEADER@, "prefer-reuse"@)],
            Some(false) => seq![(CONNECTION_REUSE_HEADER@, "prefer-fresh"@)],
            None => Seq::empty(),
        },
        None => Seq::empty(),
    };
    valid_under(seq![TURN_STATE_HEADER@, CODEX_TURN_STATE_HEADER@], turn_state) + valid_under(
        seq![TURN_METADATA_HEADER@, CODEX_TURN_METADATA_HEADER@],
        metadata,
    ) + valid_under(seq![SESSION_AFFINITY_HEADER@], affinity) + reuse
}

/// `pairs` begins with the turn state `v` under both turn-state header names.
pub open spec fn led_by_turn_state(pairs: Seq<(Seq<char>, Seq<char>)>, v: Seq<char>) -> bool {
    &&& pairs.len() >= 2
    &&& pairs[0] == (TURN_STATE_HEADER@, v)
    &&& pairs[1] == (CODEX_TURN_STATE_HEADER@, v)
}

proof fn lemma_led_by(v: Seq<char>, rest: Seq<(Seq<char>, Seq<char>)>)
    requires
        header_value_valid(v),
    ensures
        led_by_turn_state(valid_under(seq![TURN_STATE_HEADER@, CODEX_TURN_STATE_HEADER@], Some(v)) + rest, v),
{
    let names = seq![TURN_STATE_HEADER@, CODEX_TURN_STATE_HEADER@];
    assert(names.map_values(|n: Seq<char>| (n, v)) =~= seq![(TURN_STATE_HEADER@, v), (CODEX_TURN_STATE_HEADER@, v)]);
}

/// The session headers start with the turn state under both turn-state names: the request's
/// sticky turn state when it has one, and otherwise the turn state the session stored,
/// whether or not session options are given (a value that is no valid header value is not
/// sent).
pub proof fn law_turn_state_headers(session: Option<SessionRequestOptions>, stored: Option<Seq<char>>)
    ensures
        match session {
            Some(o) => match o.sticky_turn_state {
                Some(t) => header_value_valid(t@) ==> led_by_turn_state(session_header_pairs(session, stored), t@),
                None => match stored {
                    Some(v) => header_value_valid(v) ==> led_by_turn_state(session_header_pairs(session, stored), v),
                    None => true,
                },
            },
            None => match stored {
                Some(v) => header_value_valid(v) ==> led_by_turn_state(session_header_pairs(session, stored), v),
                None => true,
            },
        },
{
    let pairs = session_header_pairs(session, stored);
    let ts = seq![TURN_STATE_HEADER@, CODEX_TURN_STATE_HEADER@];
    let turn_state = match session {
        Some(o) => match o.sticky_turn_state {
            Some(t) => Some(t@),
            None => stored,
        },
        None => stored,
    };
    let rest = pairs.skip(valid_under(ts, turn_state).len() as int);
    assert(pairs =~= valid_under(ts, turn_state) + rest);
    match turn_state {
        Some(v) => {
            if header_value_valid(v) {
                lemma_led_by(v, rest);
            }
        },
        None => {},
    }
}

/// A session's connection-reuse preference is the last session header: `prefer-reuse` when it
/// prefers reusing the connection, `prefer-fresh` when it does not; and the session's turn
/// metadata is sent under both metadata names right after the turn-state headers.
pub proof fn law_session_extras(o: SessionRequestOptions, stored: Option<Seq<char>>)
    ensures
        o.prefer_connection_reuse == Some(true) ==> session_header_pairs(Some(o), stored).last() == (
        CONNECTION_REUSE_HEADER@,
        "prefer-reuse"@,
        ),
        o.prefer_connection_reuse == Some(false) ==> session_header_pairs(Some(o), stored).last() == (
        CONNECTION_REUSE_HEADER@,
        "prefer-fresh"@,
        ),
        ({
            let turn_state = match o.sticky_turn_state {
                Some(t) => Some(t@),
                None => stored,
            };
            let k = valid_under(seq![TURN_STATE_HEADER@, CODEX_TURN_STATE_HEADER@], turn_state).len();
            let pairs = session_header_pairs(Some(o), stored);
            match o.turn_metadata {
                Some(m) => header_value_valid(m@) ==> pairs.len() >= k + 2 && pairs[k as int] == (
                TURN_METADATA_HEADER@,
                m@,
                ) && pairs[k + 1int] == (CODEX_TURN_METADATA_HEADER@, m@),
                None => true,
            }
        }),
{
    let turn_state = match o.sticky_turn_state {
        Some(t) => Some(t@),
        None => stored,
    };
    let a = valid_under(seq![TURN_STATE_HEADER@, CODEX_TURN_STATE_HEADER@], turn_state);
    let b = valid_under(seq![TURN_METADATA_HEADER@, CODEX_TURN_METADATA_HEADER@], opt_text(o.turn_metadata));
    let c = valid_under(seq![SESSION_AFFINITY_HEADER@], opt_text(o.session_affinity));
    if let Some(m) = o.turn_metadata {
        if header_value_valid(m@) {
            assert(seq![TURN_METADATA_HEADER@, CODEX_TURN_METADATA_HEADER@].map_values(|n: Seq<char>| (n, m@))
                =~= seq![(TURN_METADATA_HEADER@, m@), (CODEX_TURN_METADATA_HEADER@, m@)]);
        }
    }
    let pairs = session_header_pairs(Some(o), stored);
    assert(pairs == a + b + c + match o.prefer_connection_reuse {
        Some(true) => seq![(CONNECTION_REUSE_HEADER@, "prefer-reuse"@)],
        Some(false) => seq![(CONNECTION_REUSE_HEADER@, "prefer-fresh"@)],
        None => Seq::<(Seq<char>, Seq<char>)>::empty(),
    });
}

fn push_pair(out: &mut Vec<(String, String)>, name: &str, value: &str)
    ensures
        pairs_view(final(out)@) == pairs_view(old(out)@).push((name@, value@)),
{
    let ghost before = out@;
    out.push((name.to_owned(), value.to_owned()));
    assert(pairs_view(out@) =~= pairs_view(before).push((name@, value@)));
}

fn push_valid(out: &mut Vec<(String, String)>, first: &str, second: Option<&str>, value: Option<&str>)
    ensures
        pairs_view(final(out)@) == pairs_view(old(out)@) + valid_under(
            match second {
                Some(s) => seq![first@, s@],
                None => seq![first@],
            },
            match value {
                Some(v) => Some(v@),
                None => None,
            },
        ),
{
    let ghost start = pairs_view(out@);
    match value {
        Some(v) => {
            if header_value_ok(v) {
                push_pair(out, first, v);
                match second {
                    Some(s) => {
                        push_pair(out, s, v);
                        assert(seq![first@, s@].map_values(|n: Seq<char>| (n, v@)) =~= seq![(first@, v@), (s@, v@)]);
                        assert(pairs_view(out@) =~= start + seq![(first@, v@), (s@, v@)]);
                    },
                    None => {
                        assert(seq![first@].map_values(|n: Seq<char>| (n, v@)) =~= seq![(first@, v@)]);
                        assert(pairs_view(out@) =~= start + seq![(first@, v@)]);
                    },
                }
            } else {
                assert(pairs_view(out@) =~= start + Seq::<(Seq<char>, Seq<char>)>::empty());
            }
        },
        None => {
            assert(pairs_view(out@) =~= start + Seq::<(Seq<char>, Seq<char>)>::empty());
        },
    }
}

fn opt_str(o: &Option<String>) -> (r: Option<&str>)
    ensures
        match o {
            Some(s) => r matches Some(t) && t@ == s@,
            None => r is None,
        },
{
    match o {
        Some(s) => Some(s.as_str()),
        None => None,
    }
}

/// Appends the session headers to `headers`.
fn push_session_headers(headers: &mut Vec<(String, String)>, session: Option<&SessionRequestOptions>, stored_turn_state: Option<&str>)
    ensures
        pairs_view(final(headers)@) == pairs_view(old(headers)@) + session_header_pairs(
            match session {
                Some(o) => Some(*o),
                None => None,
            },
            match stored_turn_state {
                Some(t) => Some(t@),
                None => None,
            },
        ),
{
    let ghost base = pairs_view(headers@);
    let turn_state: Option<&str> = match session {
        Some(o) => match &o.sticky_turn_state {
            Some(t) => Some(t.as_str()),
            None => stored_turn_state,
        },
        None => stored_turn_state,
    };
    push_valid(headers, TURN_STATE_HEADER, Some(CODEX_TURN_STATE_HEADER), turn_state);
    let metadata: Option<&str> = match session {
        Some(o) => opt_str(&o.turn_metadata),
        None => None,
    };
    push_valid(headers, TURN_METADATA_HEADER, Some(CODEX_TURN_METADATA_HEADER), metadata);
    let affinity: Option<&str> = match session {
        Some(o) => opt_str(&o.session_affinity),
        None => None,
    };
    push_valid(headers, SESSION_AFFINITY_HEADER, None, affinity);
    let ghost before_reuse = pairs_view(headers@);
    match session {
        Some(o) => match o.prefer_connection_reuse {
            Some(true) => push_pair(headers, CONNECTION_REUSE_HEADER, "prefer-reuse"),
            Some(false) => push_pair(headers, CONNECTION_REUSE_HEADER, "prefer-fresh"),
            None => {},
        },
        None => {},
    }
    proof {
        let sv = match session {
            Some(o) => Some(*o),
            None => None,
        };
        let st = match stored_turn_state {
            Some(t) => Some(t@),
            None => None,
        };
        let p = session_header_pairs(sv, st);
        let reuse: Seq<(Seq<char>, Seq<char>)> = match sv {
            Some(o) => match o.prefer_connection_reuse {
                Some(true) => seq![(CONNECTION_REUSE_HEADER@, "prefer-reuse"@)],
                Some(false) => seq![(CONNECTION_REUSE_HEADER@, "prefer-fresh"@)],
                None => Seq::empty(),
            },
            None => Seq::empty(),
        };
        assert(pairs_view(headers@) =~= before_reuse + reuse);
        assert(pairs_view(headers@) =~= base + p);
    }
}

/// The headers of a websocket request of `definition` under `credentials`: the request
/// headers, then the session headers.
pub fn build_websocket_headers_for_session(
    definition: &ProviderDefinition,
    credentials: &ProviderCredentials,
    session: Option<&SessionRequestOptions>,
    stored_turn_state: Option<&str>,
) -> (r: Result<Vec<(String, String)>, String>)
    ensures
        match request_headers(
            match definition.headers {
                Some(hs) => Some(pairs_view(hs@)),
                None => None,
            },
            pairs_view(credentials.headers@),
            match credentials.bearer_token {
                Some(t) => Some(t@),
                None => None,
            },
        ) {
            Ok(l) => r matches Ok(v) && pairs_view(v@) == l + session_header_pairs(
                match session {
                    Some(o) => Some(*o),
                    None => None,
                },
                match stored_turn_state {
                    Some(t) => Some(t@),
                    None => None,
                },
            ),
            Err(m) => r matches Err(e) && e@ == m,
        },
{
    let mut headers = build_request_headers(definition, credentials)?;
    push_session_headers(&mut headers, session, stored_turn_state);
    Ok(headers)
}

/// The session options of a websocket request: the stored turn state, the given turn
/// metadata, and a preference for reusing the connection when the last one was reused.
pub fn websocket_session_options(stored_turn_state: Option<&str>, turn_metadata: Option<&str>, connection_reused: bool) -> (r:
    SessionRequestOptions)
    ensures
        opt_text(r.sticky_turn_state) == match stored_turn_state {
            Some(t) => Some(t@),
            None => None::<Seq<char>>,
        },
        opt_text(r.turn_metadata) == match turn_metadata {
            Some(t) => Some(t@),
            None => None::<Seq<char>>,
        },
        r.prefer_connection_reuse == Some(connection_reused),
        r.session_affinity is None,
{
    SessionRequestOptions {
        sticky_turn_state: match stored_turn_state {
            Some(t) => Some(t.to_owned()),
            None => None,
        },
        turn_metadata: match turn_metadata {
            Some(t) => Some(t.to_owned()),
            None => None,
        },
        prefer_connection_reuse: Some(connection_reused),
        session_affinity: None,
    }
}

} // verus!
