//! SIP message recognition: given a UDP payload, yield a request record
//! only for REGISTER or INVITE requests, with the advertised User-Agent.
//! Everything else — binary payloads, non-SIP text, other SIP methods —
//! is a normal, silent `None`.
//!
//! The source address of the produced record is always the one the
//! frame decoder read from the network header; payload content is never
//! trusted for addressing.

use vstd::prelude::*;
use vstd::string::{StrSliceExecFns, StringExecFns, StringSliceAdditionalSpecFns};
use vstd::utf8::{decode_utf8, encode_utf8_decode_utf8, valid_utf8};
use crate::addr::Ipv4Address;
use crate::text::{is_ws, matches_at, trim_str, trimmed};

verus! {

/// Declares core::str::Utf8Error, the error type of the text check
/// below, so that it may appear in its signature.
#[verifier::external_type_specification]
#[verifier::external_body]
pub struct ExUtf8Error(core::str::Utf8Error);

/// Relies on core::str::from_utf8: it succeeds exactly on well-formed
/// UTF-8 input and then returns that input as borrowed text.
pub assume_specification[ core::str::from_utf8 ](v: &[u8]) -> (r: Result<
    &str,
    core::str::Utf8Error,
>)
    ensures
        r is Ok <==> valid_utf8(v@),
        r is Ok ==> r->Ok_0.spec_bytes() == v@,
;

/// The SIP methods this system acts on; all other methods are not
/// materialized.
#[derive(Clone, Copy, PartialEq, Eq, Structural, Debug)]
pub enum SipMethod {
    Register,
    Invite,
}

/// A recognized SIP request: the network-layer source address, the
/// method, and the User-Agent header value ("Unknown" when absent).
#[derive(Clone, Debug)]
pub struct SipRequest {
    pub source_ip: Ipv4Address,
    pub user_agent: String,
    pub method: SipMethod,
}

pub open spec fn register_tok() -> Seq<char> {
    seq!['R', 'E', 'G', 'I', 'S', 'T', 'E', 'R']
}

pub open spec fn invite_tok() -> Seq<char> {
    seq!['I', 'N', 'V', 'I', 'T', 'E']
}

/// The header name searched for, lower case, colon included.
pub open spec fn ua_name() -> Seq<char> {
    seq!['u', 's', 'e', 'r', '-', 'a', 'g', 'e', 'n', 't', ':']
}

pub open spec fn unknown_tok() -> Seq<char> {
    seq!['U', 'n', 'k', 'n', 'o', 'w', 'n']
}

/// `s` opens with `tok` followed by one whitespace character.
pub open spec fn starts_with_tok(s: Seq<char>, tok: Seq<char>) -> bool {
    tok.len() < s.len() && s.subrange(0, tok.len() as int) == tok && is_ws(s[tok.len() as int])
}

/// The actionable method announced at the start of the message, if any.
/// A message opening with any other token — another SIP method or
/// arbitrary text — yields nothing either way.
pub open spec fn actionable_method(s: Seq<char>) -> Option<SipMethod> {
    if starts_with_tok(s, register_tok()) {
        Some(SipMethod::Register)
    } else if starts_with_tok(s, invite_tok()) {
        Some(SipMethod::Invite)
    } else {
        None
    }
}

/// `x` equals the (lower case) header-name character `n`, case ignored
/// for ASCII letters.
pub open spec fn matches_name_char(x: char, n: char) -> bool {
    x == n || (97 <= n as u32 <= 122 && x as u32 + 32 == n as u32)
}

/// The header name occurs at position `i` of `s`, case-insensitively.
pub open spec fn occurs_at(s: Seq<char>, i: int) -> bool {
    0 <= i && i + 11 <= s.len() && (forall|j: int|
        0 <= j < 11 ==> #[trigger] matches_name_char(s[i + j], ua_name()[j]))
}

/// The first position at or after `i` where the header name occurs.
pub open spec fn first_ua_from(s: Seq<char>, i: int) -> Option<int>
    decreases s.len() - i,
{
    if i < 0 || i + 11 > s.len() {
        None
    } else if occurs_at(s, i) {
        Some(i)
    } else {
        first_ua_from(s, i + 1)
    }
}

/// The first line break at or after `i`, or the end of `s`.
pub open spec fn line_end_from(s: Seq<char>, i: int) -> int
    decreases s.len() - i,
{
    if i < 0 || i >= s.len() {
        s.len() as int
    } else if s[i] == '\r' || s[i] == '\n' {
        i
    } else {
        line_end_from(s, i + 1)
    }
}

/// The User-Agent value of the message: the remainder of the line after
/// the first occurrence of the header name, trimmed of whitespace, or
/// "Unknown" when the header is absent.
pub open spec fn ua_value_spec(s: Seq<char>) -> Seq<char> {
    match first_ua_from(s, 0) {
        Some(i) => trimmed(s.subrange(i + 11, line_end_from(s, i + 11))),
        None => unknown_tok(),
    }
}

/// What extraction yields on a payload: nothing unless the bytes are
/// well-formed UTF-8 text opening with an actionable method.
pub open spec fn extract_spec(bytes: Seq<u8>) -> Option<(SipMethod, Seq<char>)> {
    if !valid_utf8(bytes) {
        None
    } else {
        let text = decode_utf8(bytes);
        match actionable_method(text) {
            Some(m) => Some((m, ua_value_spec(text))),
            None => None,
        }
    }
}

proof fn lemma_first_ua_some(s: Seq<char>, i: int, a: int)
    requires
        0 <= i <= a,
        a + 11 <= s.len(),
        forall|k: int| i <= k < a ==> !occurs_at(s, k),
        occurs_at(s, a),
    ensures
        first_ua_from(s, i) == Some(a),
    decreases a - i,
{
    if i < a {
        lemma_first_ua_some(s, i + 1, a);
    }
}

proof fn lemma_first_ua_none(s: Seq<char>, i: int)
    requires
        0 <= i,
        forall|k: int| i <= k ==> !occurs_at(s, k),
    ensures
        first_ua_from(s, i) is None,
    decreases s.len() - i,
{
    if i + 11 <= s.len() {
        lemma_first_ua_none(s, i + 1);
    }
}

proof fn lemma_line_end_at(s: Seq<char>, i: int, e: int)
    requires
        0 <= i <= e <= s.len(),
        forall|k: int| i <= k < e ==> !(s[k] == '\r' || s[k] == '\n'),
        e == s.len() || s[e] == '\r' || s[e] == '\n',
    ensures
        line_end_from(s, i) == e,
    decreases e - i,
{
    if i < e {
        lemma_line_end_at(s, i + 1, e);
    }
}

/// One character of the searched header name.
fn ua_name_char(j: usize) -> (c: char)
    requires
        j < 11,
    ensures
        c == ua_name()[j as int],
{
    if j == 0 {
        'u'
    } else if j == 1 {
        's'
    } else if j == 2 {
        'e'
    } else if j == 3 {
        'r'
    } else if j == 4 {
        '-'
    } else if j == 5 {
        'a'
    } else if j == 6 {
        'g'
    } else if j == 7 {
        'e'
    } else if j == 8 {
        'n'
    } else if j == 9 {
        't'
    } else {
        ':'
    }
}

/// Case-insensitive comparison of one text character against one
/// (lower case) header-name character.
fn name_char_ok(x: char, n: char) -> (r: bool)
    ensures
        r == matches_name_char(x, n),
{
    let nu = n as u32;
    let xu = x as u32;
    x == n || (97 <= nu && nu <= 122 && xu + 32 == nu)
}

/// Whether the header name occurs at position `i`, case ignored.
fn name_matches_at(text: &str, i: usize) -> (r: bool)
    requires
        i + 11 <= text@.len(),
        text@.len() <= usize::MAX,
    ensures
        r == occurs_at(text@, i as int),
{
    let mut j: usize = 0;
    while j < 11
        invariant
            j <= 11,
            i + 11 <= text@.len() <= usize::MAX,
            forall|k: int| 0 <= k < j ==> #[trigger] matches_name_char(text@[i + k], ua_name()[k]),
        decreases 11 - j,
    {
        let c = text.get_char(i + j);
        let nm = ua_name_char(j);
        if !name_char_ok(c, nm) {
            return false;
        }
        j += 1;
    }
    true
}

/// The position of the first User-Agent header name in `text`, if any.
fn find_ua_name(text: &str) -> (r: Option<usize>)
    ensures
        r is Some ==> occurs_at(text@, r->Some_0 as int) && first_ua_from(text@, 0) == Some(
            r->Some_0 as int,
        ),
        r is None ==> first_ua_from(text@, 0) is None,
{
    let n = text.unicode_len();
    if n < 11 {
        return None;
    }
    let mut i: usize = 0;
    while i <= n - 11
        invariant
            11 <= n,
            n == text@.len(),
            i <= n - 10,
            forall|k: int| 0 <= k < i ==> !occurs_at(text@, k),
        decreases n - i,
    {
        if name_matches_at(text, i) {
            proof {
                lemma_first_ua_some(text@, 0, i as int);
            }
            return Some(i);
        }
        i += 1;
    }
    proof {
        assert forall|k: int| 0 <= k implies !occurs_at(text@, k) by {
            if k >= i {
                assert(k + 11 > text@.len());
            }
        }
        lemma_first_ua_none(text@, 0);
    }
    None
}

/// Whether `c` ends a header line.
fn not_line_break(c: char) -> (r: bool)
    ensures
        r == !(c == '\r' || c == '\n'),
{
    c != '\r' && c != '\n'
}

/// Extracts the User-Agent value of `text`, or "Unknown".
fn extract_user_agent(text: &str) -> (r: String)
    ensures
        r@ == ua_value_spec(text@),
{
    match find_ua_name(text) {
        Some(i) => {
            let n = text.unicode_len();
            let start = i + 11;
            let mut e: usize = start;
            while e < n && not_line_break(text.get_char(e))
                invariant
                    start <= e <= n,
                    n == text@.len(),
                    start <= n,
                    forall|k: int| start <= k < e ==> !(text@[k] == '\r' || text@[k] == '\n'),
                decreases n - e,
            {
                e += 1;
            }
            proof {
                lemma_line_end_at(text@, start as int, e as int);
            }
            let raw = text.substring_char(start, e);
            let v = trim_str(raw);
            let r = String::from_str(v);
            proof {
                assert(r@ == trimmed(text@.subrange(start as int, e as int)));
            }
            r
        },
        None => {
            let r = String::from_str("Unknown");
            proof {
                reveal_strlit("Unknown");
                assert(r@ =~= unknown_tok());
            }
            r
        },
    }
}

/// `s` opens with `tok` followed by whitespace.
fn has_token_prefix(s: &str, tok: &str) -> (r: bool)
    ensures
        r == starts_with_tok(s@, tok@),
{
    let n = tok.unicode_len();
    let m = s.unicode_len();
    if n >= m {
        return false;
    }
    if !matches_at(s, tok, 0) {
        return false;
    }
    crate::text::is_ws_char(s.get_char(n))
}

/// Recognizes SIP requests in UDP payloads.
pub struct SipParser {}

impl SipParser {
    pub fn new() -> (r: Self) {
        SipParser {}
    }

    /// Parses one UDP payload. Yields a record only for REGISTER or
    /// INVITE requests; the record's address is always `source_ip`,
    /// the network-layer address handed in by the frame decoder.
    pub fn parse_udp_packet(&self, data: &[u8], source_ip: Ipv4Address) -> (r: Option<SipRequest>)
        ensures
            r is Some <==> extract_spec(data@) is Some,
            r is Some ==> {
                let (m, ua) = extract_spec(data@)->Some_0;
                r->Some_0.method == m && r->Some_0.user_agent@ == ua && r->Some_0.source_ip
                    == source_ip
            },
    {
        let text: &str = match core::str::from_utf8(data) {
            Ok(t) => t,
            Err(_) => {
                return None;
            },
        };
        proof {
            encode_utf8_decode_utf8(text@);
            assert(decode_utf8(data@) == text@);
            reveal_strlit("REGISTER");
            assert("REGISTER"@ =~= register_tok());
            reveal_strlit("INVITE");
            assert("INVITE"@ =~= invite_tok());
        }
        let method: SipMethod = if has_token_prefix(text, "REGISTER") {
            SipMethod::Register
        } else if has_token_prefix(text, "INVITE") {
            SipMethod::Invite
        } else {
            return None;
        };
        let user_agent = extract_user_agent(text);
        Some(SipRequest { source_ip, user_agent, method })
    }
}

impl Default for SipParser {
    fn default() -> (r: Self) {
        SipParser::new()
    }
}

} // verus!
