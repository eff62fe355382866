//! The cross-origin policy: who may call, with which methods and headers.

use vstd::prelude::*;
use vstd::string::*;
use crate::named::str_eq;
use crate::origin::lemma_lex_total;
use crate::origin::lemma_lex_transitive;
use crate::origin::lex_lt;
use crate::origin::normalize_origin;
use crate::origin::str_lt;
use crate::origin::trim_end;

verus! {

/// The policy as plain values, ready to be handed to the layer that
/// enforces it.
#[derive(Debug, Clone, PartialEq, Eq)]
pub struct CorsPolicy {
    /// Whether cookies may be sent along.
    pub allow_credentials: bool,
    pub allowed_headers: Vec<&'static str>,
    pub allowed_methods: Vec<&'static str>,
    /// The headers of an answer that the caller's script may read.
    pub exposed_headers: Vec<&'static str>,
    /// The origins that may call, in the order of strings, each once.
    pub allowed_origins: Vec<String>,
}

/// A character that may stand in the value of a header: a tab, or anything
/// from the space on but the delete character.
pub open spec fn is_header_char(c: char) -> bool {
    c == '\t' || (c as int >= 32 && c as int != 127)
}

/// Every character of `s` may stand in the value of a header.
pub open spec fn header_value_accepts(s: Seq<char>) -> bool {
    forall|i: int| 0 <= i < s.len() ==> is_header_char(#[trigger] s[i])
}

/// Whether `HeaderValue::from_str` of the `http` crate takes `s`. It looks
/// at every byte and takes the tab and every byte from 32 on but 127; the
/// bytes of a character beyond the ASCII range are all above 127.
#[verifier::external_body]
fn is_header_value(s: &str) -> (r: bool)
    ensures
        r == header_value_accepts(s@),
{
    axum::http::HeaderValue::from_str(s).is_ok()
}

/// The names in `v` are those of `expected`, in that order.
pub open spec fn names_are(v: Seq<&'static str>, expected: Seq<Seq<char>>) -> bool {
    &&& v.len() == expected.len()
    &&& forall|i: int| 0 <= i < v.len() ==> (#[trigger] v[i])@ == expected[i]
}

/// The origins stand in the order of strings and none stands twice.
pub open spec fn is_sorted_unique(v: Seq<String>) -> bool {
    forall|i: int, j: int| 0 <= i < j < v.len() ==> lex_lt(#[trigger] v[i]@, #[trigger] v[j]@)
}

/// `s` is one of the origins in `v`.
pub open spec fn holds(v: Seq<String>, s: Seq<char>) -> bool {
    exists|i: int| 0 <= i < v.len() && (#[trigger] v[i])@ == s
}

/// One of the first `n` configured origins is `s` once its trailing
/// slashes are gone.
pub open spec fn is_configured(configured: Seq<String>, n: int, s: Seq<char>) -> bool {
    exists|k: int| 0 <= k < n && k < configured.len() && trim_end((#[trigger] configured[k])@, '/') == s
}

/// `s` is an origin that the configuration asks for: one of the configured
/// origins or the address of the frontend, each without trailing slashes
/// and the latter only if something is left of it, or, in production, one
/// of the two addresses of the service itself.
pub open spec fn is_candidate(
    configured: Seq<String>,
    frontend_url: Seq<char>,
    production: bool,
    s: Seq<char>,
) -> bool {
    ||| is_configured(configured, configured.len() as int, s)
    ||| (trim_end(frontend_url, '/').len() > 0 && s == trim_end(frontend_url, '/'))
    ||| (production && (s == "https://ignition.ecent.online"@ || s
        == "https://admin.ignition.ecent.online"@))
}

/// `list` holds every origin that the configuration asks for and that can
/// stand in a header, and nothing else, each once and in the order of
/// strings.
pub open spec fn is_allowed_list(
    list: Seq<String>,
    configured: Seq<String>,
    frontend_url: Seq<char>,
    production: bool,
) -> bool {
    &&& is_sorted_unique(list)
    &&& forall|s: Seq<char>| #[trigger]
        holds(list, s) <==> is_candidate(configured, frontend_url, production, s)
            && header_value_accepts(s)
}

/// Adds `origin` to the list, at its place in the order of strings, unless
/// it is there already or cannot stand in a header.
fn add_origin(list: &mut Vec<String>, origin: String)
    requires
        is_sorted_unique(old(list)@),
    ensures
        is_sorted_unique(final(list)@),
        forall|s: Seq<char>| #[trigger]
            holds(final(list)@, s) <==> holds(old(list)@, s) || (s == origin@
                && header_value_accepts(origin@)),
{
    if !is_header_value(origin.as_str()) {
        return ;
    }
    let ghost before = list@;
    let mut pos: usize = 0;
    while pos < list.len() && str_lt(list[pos].as_str(), origin.as_str())
        invariant
            0 <= pos <= list.len(),
            list@ == before,
            forall|a: int| 0 <= a < pos ==> lex_lt((#[trigger] list@[a])@, origin@),
        decreases list.len() - pos,
    {
        pos = pos + 1;
    }
    if pos < list.len() && str_eq(list[pos].as_str(), origin.as_str()) {
        assert(holds(before, origin@));
        return ;
    }
    let ghost text = origin@;
    list.insert(pos, origin);
    proof {
        let after = list@;
        assert(after[pos as int]@ == text);
        assert forall|i: int, j: int| 0 <= i < j < after.len() implies lex_lt(
            #[trigger] after[i]@,
            #[trigger] after[j]@,
        ) by {
            if pos < before.len() {
                lemma_lex_total(before[pos as int]@, text);
            }
            if j < pos {
                assert(after[i] == before[i] && after[j] == before[j]);
            } else if j == pos {
                assert(after[i] == before[i]);
            } else if i == pos {
                assert(after[j] == before[j - 1]);
                if j - 1 > pos {
                    assert(lex_lt(before[pos as int]@, before[j - 1]@));
                    lemma_lex_transitive(text, before[pos as int]@, before[j - 1]@);
                }
            } else if i < pos {
                assert(after[i] == before[i] && after[j] == before[j - 1]);
            } else {
                assert(after[i] == before[i - 1] && after[j] == before[j - 1]);
            }
        }
        assert forall|s: Seq<char>| holds(after, s) <==> holds(before, s) || s == text by {
            if holds(before, s) {
                let k = choose|k: int| 0 <= k < before.len() && (#[trigger] before[k])@ == s;
                if k < pos {
                    assert(after[k]@ == s);
                } else {
                    assert(after[k + 1]@ == s);
                }
            }
            if s == text {
                assert(after[pos as int]@ == s);
            }
            if holds(after, s) {
                let k = choose|k: int| 0 <= k < after.len() && (#[trigger] after[k])@ == s;
                if k < pos {
                    assert(before[k]@ == s);
                } else if k > pos {
                    assert(before[k - 1]@ == s);
                }
            }
        }
    }
}

/// The origins that may call: the configured origins and the address of
/// the frontend, each without trailing slashes, and in production the two
/// addresses of the service itself; of these, every one that can stand in a
/// header, once, in the order of strings.
pub fn allowed_origins(configured: &Vec<String>, frontend_url: &str, production: bool) -> (r: Vec<
    String,
>)
    ensures
        is_allowed_list(r@, configured@, frontend_url@, production),
{
    let mut list: Vec<String> = Vec::new();
    let mut i: usize = 0;
    assert forall|s: Seq<char>| #[trigger] holds(list@, s) <==> is_configured(configured@, 0, s)
        && header_value_accepts(s) by {}
    while i < configured.len()
        invariant
            0 <= i <= configured.len(),
            is_sorted_unique(list@),
            forall|s: Seq<char>| #[trigger]
                holds(list@, s) <==> is_configured(configured@, i as int, s)
                    && header_value_accepts(s),
        decreases configured.len() - i,
    {
        let ghost before = list@;
        let origin = normalize_origin(configured[i].as_str());
        let ghost text = origin@;
        add_origin(&mut list, origin);
        proof {
            assert forall|s: Seq<char>| #[trigger] holds(list@, s) <==> is_configured(
                configured@,
                i + 1,
                s,
            ) && header_value_accepts(s) by {
                assert(holds(before, s) <==> is_configured(configured@, i as int, s)
                    && header_value_accepts(s));
                assert(holds(list@, s) <==> holds(before, s) || (s == text && header_value_accepts(
                    text,
                )));
                if is_configured(configured@, i as int, s) {
                    let k = choose|k: int|
                        0 <= k < i && k < configured@.len() && trim_end(
                            (#[trigger] configured@[k])@,
                            '/',
                        ) == s;
                    assert(0 <= k < i + 1 && trim_end(configured@[k]@, '/') == s);
                }
                if s == text {
                    assert(trim_end(configured@[i as int]@, '/') == s);
                    assert(is_configured(configured@, i + 1, s));
                }
                if is_configured(configured@, i + 1, s) {
                    let k = choose|k: int|
                        0 <= k < i + 1 && k < configured@.len() && trim_end(
                            (#[trigger] configured@[k])@,
                            '/',
                        ) == s;
                    if k < i {
                        assert(trim_end(configured@[k]@, '/') == s);
                        assert(is_configured(configured@, i as int, s));
                    }
                }
            }
        }
        i = i + 1;
    }
    let ghost with_configured = list@;
    let frontend = normalize_origin(frontend_url);
    if frontend.as_str().unicode_len() > 0 {
        add_origin(&mut list, frontend);
    }
    let ghost with_frontend = list@;
    if production {
        add_origin(&mut list, String::from_str("https://ignition.ecent.online"));
        add_origin(&mut list, String::from_str("https://admin.ignition.ecent.online"));
    }
    proof {
        assert forall|s: Seq<char>| #[trigger] holds(list@, s) <==> is_candidate(
            configured@,
            frontend_url@,
            production,
            s,
        ) && header_value_accepts(s) by {
            assert(holds(with_configured, s) <==> is_configured(
                configured@,
                configured@.len() as int,
                s,
            ) && header_value_accepts(s));
            assert(holds(with_frontend, s) <==> holds(with_configured, s) || (trim_end(
                frontend_url@,
                '/',
            ).len() > 0 && s == trim_end(frontend_url@, '/') && header_value_accepts(s)));
        }
    }
    list
}

/// The policy for the given configuration: cookies allowed; the six
/// request headers and six methods that the interface uses; two headers of
/// the answer exposed; and the origins of `allowed_origins`.
pub fn cors_layer(configured: &Vec<String>, frontend_url: &str, production: bool) -> (r: CorsPolicy)
    ensures
        r.allow_credentials,
        names_are(
            r.allowed_headers@,
            seq![
                "accept"@,
                "accept-language"@,
                "authorization"@,
                "content-language"@,
                "content-type"@,
                "origin"@,
            ],
        ),
        names_are(
            r.allowed_methods@,
            seq!["GET"@, "POST"@, "PUT"@, "PATCH"@, "DELETE"@, "OPTIONS"@],
        ),
        names_are(r.exposed_headers@, seq!["content-type"@, "content-length"@]),
        is_allowed_list(r.allowed_origins@, configured@, frontend_url@, production),
{
    let mut allowed_headers: Vec<&'static str> = Vec::new();
    allowed_headers.push("accept");
    allowed_headers.push("accept-language");
    allowed_headers.push("authorization");
    allowed_headers.push("content-language");
    allowed_headers.push("content-type");
    allowed_headers.push("origin");
    let mut allowed_methods: Vec<&'static str> = Vec::new();
    allowed_methods.push("GET");
    allowed_methods.push("POST");
    allowed_methods.push("PUT");
    allowed_methods.push("PATCH");
    allowed_methods.push("DELETE");
    allowed_methods.push("OPTIONS");
    let mut exposed_headers: Vec<&'static str> = Vec::new();
    exposed_headers.push("content-type");
    exposed_headers.push("content-length");
    CorsPolicy {
        allow_credentials: true,
        allowed_headers,
        allowed_methods,
        exposed_headers,
        allowed_origins: allowed_origins(configured, frontend_url, production),
    }
}

} // verus!
