//! The pure part of the HTTP carrier: URLs, the headers every request carries,
//! and the masking and shortening of text quoted back in errors.

use vstd::prelude::*;
use vstd::string::StringExecFns;
use vstd::utf8::encode_utf8;
use crate::domain::error::OpenAiError;
use crate::text::{chars_of, decimal, push_decimal, push_range, push_repeated, string_of};

verus! {

/// The URL of a route: the base URL followed by the route's path.
pub fn url(base_url: &str, path: &str) -> (u: String)
    ensures
        u@ == base_url@ + path@,
{
    String::from_str(base_url).concat(path)
}

/// A credential masked for logging: the first and last four characters
/// survive when there are more than eight; otherwise nothing does.
pub open spec fn masked(secret: Seq<char>) -> Seq<char> {
    if secret.len() <= 8 {
        Seq::new(secret.len(), |i: int| '*')
    } else {
        secret.take(4) + Seq::new((secret.len() - 8) as nat, |i: int| '*') + secret.skip(
            secret.len() - 4,
        )
    }
}

/// Law: masking keeps the length and reveals at most the first and last four
/// characters; a secret of eight characters or fewer is not revealed at all.
pub proof fn law_mask_reveals_only_the_edges(secret: Seq<char>)
    ensures
        masked(secret).len() == secret.len(),
        forall|i: int|
            0 <= i < secret.len() ==> (#[trigger] masked(secret)[i] == '*' || (secret.len() > 8
                && (i < 4 || i >= secret.len() - 4) && masked(secret)[i] == secret[i])),
        secret.len() <= 8 ==> forall|i: int| 0 <= i < secret.len() ==> #[trigger] masked(secret)[i] == '*',
{
}

/// Mask a credential for logging: first and last four characters survive.
pub fn mask_secret(secret: &str) -> (r: String)
    ensures
        r@ == masked(secret@),
{
    let chars = chars_of(secret);
    let n = chars.len();
    let mut r = String::new();
    if n <= 8 {
        push_repeated(&mut r, '*', n);
    } else {
        push_range(&mut r, &chars, 0, 4);
        push_repeated(&mut r, '*', n - 8);
        push_range(&mut r, &chars, n - 4, n);
    }
    r
}

/// Cap on how many characters of a body are quoted back in a decode error.
pub const MAX_BODY_SNIPPET_CHARS: usize = 500;

/// A body as quoted in an error: whole when short, else its first
/// `MAX_BODY_SNIPPET_CHARS` characters, an ellipsis and its size in bytes
/// (`byte_len`).
pub open spec fn snippet(body: Seq<char>, byte_len: nat) -> Seq<char> {
    if body.len() > MAX_BODY_SNIPPET_CHARS {
        body.take(MAX_BODY_SNIPPET_CHARS as int) + seq!['\u{2026}', ' ', '('] + decimal(byte_len)
            + " bytes total)"@
    } else {
        body
    }
}

/// Shorten `body` for an error message, on character boundaries.
pub fn truncate(body: &str) -> (r: String)
    ensures
        r@ == snippet(body@, body.len() as nat),
{
    let chars = chars_of(body);
    if chars.len() > MAX_BODY_SNIPPET_CHARS {
        let mut r = String::new();
        push_range(&mut r, &chars, 0, MAX_BODY_SNIPPET_CHARS);
        let ellipsis: Vec<char> = vec!['\u{2026}', ' ', '('];
        push_range(&mut r, &ellipsis, 0, 3);
        assert(ellipsis@.subrange(0, 3) == seq!['\u{2026}', ' ', '(']);
        push_decimal(&mut r, body.len() as u64);
        let r = r.concat(" bytes total)");
        assert(chars@.subrange(0, MAX_BODY_SNIPPET_CHARS as int) == body@.take(
            MAX_BODY_SNIPPET_CHARS as int,
        ));
        r
    } else {
        string_of(&chars)
    }
}

/// A byte HTTP accepts in a header value: visible ASCII, space, tab, or any
/// byte of a multi-byte character.
pub open spec fn header_value_byte(b: u8) -> bool {
    (b >= 32 && b != 127) || b == 9
}

/// Whether the UTF-8 text with bytes `bytes` can be a header value.
pub open spec fn header_value_ok(bytes: Seq<u8>) -> bool {
    forall|i: int| 0 <= i < bytes.len() ==> header_value_byte(#[trigger] bytes[i])
}

/// A token character of an HTTP header name.
pub open spec fn header_name_byte(b: u8) -> bool {
    ||| 48 <= b <= 57
    ||| 65 <= b <= 90
    ||| 97 <= b <= 122
    ||| b == 33 || b == 35 || b == 36 || b == 37 || b == 38 || b == 39 || b == 42 || b == 43
    ||| b == 45 || b == 46 || b == 94 || b == 95 || b == 96 || b == 124 || b == 126
}

/// Whether `bytes` can be a header name: non-empty, at most 65535 bytes, all
/// token characters.
pub open spec fn header_name_ok(bytes: Seq<u8>) -> bool {
    &&& 1 <= bytes.len() <= 65535
    &&& forall|i: int| 0 <= i < bytes.len() ==> header_name_byte(#[trigger] bytes[i])
}

/// What `InvalidHeaderValue` displays.
pub open spec fn bad_value_text() -> Seq<char> {
    "failed to parse header value"@
}

/// What `InvalidHeaderName` displays.
pub open spec fn bad_name_text() -> Seq<char> {
    "invalid HTTP header name"@
}

/// `reqwest::header::HeaderValue::from_str`: accepts exactly the texts whose
/// bytes are all visible ASCII, space, tab or part of a multi-byte character;
/// its error displays as `failed to parse header value`.
#[verifier::external_body]
fn check_header_value(value: &str) -> (r: Result<(), String>)
    ensures
        r is Ok <==> header_value_ok(encode_utf8(value@)),
        r matches Err(e) ==> e@ == bad_value_text(),
{
    match reqwest::header::HeaderValue::from_str(value) {
        Ok(_) => Ok(()),
        Err(e) => Err(e.to_string()),
    }
}

/// `reqwest::header::HeaderName::from_bytes`: accepts exactly the non-empty
/// names of at most 65535 token characters; its error displays as
/// `invalid HTTP header name`.
#[verifier::external_body]
fn check_header_name(name: &str) -> (r: Result<(), String>)
    ensures
        r is Ok <==> header_name_ok(encode_utf8(name@)),
        r matches Err(e) ==> e@ == bad_name_text(),
{
    match reqwest::header::HeaderName::from_bytes(name.as_bytes()) {
        Ok(_) => Ok(()),
        Err(e) => Err(e.to_string()),
    }
}

/// ASCII upper case folded to lower case, as a header name is displayed.
pub open spec fn lower_char(c: char) -> char {
    if 'A' <= c <= 'Z' {
        ((c as u32) + 32) as char
    } else {
        c
    }
}

/// A header name as displayed: in lower case.
pub open spec fn lowered(s: Seq<char>) -> Seq<char> {
    s.map_values(|c: char| lower_char(c))
}

/// `s` folded to lower case.
fn lower_text(s: &str) -> (r: String)
    ensures
        r@ == lowered(s@),
{
    let chars = chars_of(s);
    let mut out: Vec<char> = Vec::new();
    let mut i: usize = 0;
    while i < chars.len()
        invariant
            i <= chars.len(),
            out@ == lowered(chars@.take(i as int)),
        decreases chars.len() - i,
    {
        let c = chars[i];
        let l = if 'A' <= c && c <= 'Z' {
            ((c as u8) + 32) as char
        } else {
            c
        };
        out.push(l);
        assert(lowered(chars@.take(i + 1)) == lowered(chars@.take(i as int)).push(lower_char(c)));
        i = i + 1;
    }
    assert(chars@.take(chars.len() as int) == chars@);
    string_of(&out)
}

/// The name of the header carrying the credential.
pub const AUTHORIZATION: &'static str = "authorization";

/// What is reported for a credential that cannot be a header value.
pub open spec fn bad_key_message(key: Seq<char>) -> Seq<char> {
    "API key "@ + masked(key) + " is not valid header content: "@ + bad_value_text()
}

/// What is reported for a header whose name cannot be a header name.
pub open spec fn bad_name_message(name: Seq<char>) -> Seq<char> {
    "invalid header name '"@ + name + "': "@ + bad_name_text()
}

/// What is reported for a header whose value cannot be a header value.
pub open spec fn bad_value_message(name: Seq<char>) -> Seq<char> {
    "invalid value for header '"@ + lowered(name) + "': "@ + bad_value_text()
}

/// The extra headers checked in order: all of them when every name and value
/// is acceptable, else the message for the first one that is not.
pub open spec fn header_plan(pairs: Seq<(Seq<char>, Seq<char>)>) -> Result<
    Seq<(Seq<char>, Seq<char>)>,
    Seq<char>,
>
    decreases pairs.len(),
{
    if pairs.len() == 0 {
        Ok(Seq::empty())
    } else {
        match header_plan(pairs.drop_last()) {
            Err(m) => Err(m),
            Ok(done) => {
                let (name, value) = pairs.last();
                if !header_name_ok(encode_utf8(name)) {
                    Err(bad_name_message(name))
                } else if !header_value_ok(encode_utf8(value)) {
                    Err(bad_value_message(name))
                } else {
                    Ok(done.push((name, value)))
                }
            },
        }
    }
}

/// The headers every request carries: the bearer credential first, when
/// there is one, then the extra headers in order; or the message for the
/// first that HTTP cannot carry.
pub open spec fn default_headers(
    api_key: Option<Seq<char>>,
    pairs: Seq<(Seq<char>, Seq<char>)>,
) -> Result<Seq<(Seq<char>, Seq<char>)>, Seq<char>> {
    match api_key {
        Some(key) => if !header_value_ok(encode_utf8("Bearer "@ + key)) {
            Err(bad_key_message(key))
        } else {
            match header_plan(pairs) {
                Ok(rest) => Ok(seq![(AUTHORIZATION@, "Bearer "@ + key)] + rest),
                Err(m) => Err(m),
            }
        },
        None => header_plan(pairs),
    }
}

/// The views of a sequence of header pairs.
pub open spec fn pair_views(h: Seq<(String, String)>) -> Seq<(Seq<char>, Seq<char>)> {
    h.map_values(|p: (String, String)| (p.0@, p.1@))
}

/// The headers every request to an endpoint carries, checked the way the HTTP
/// client checks them: the credential as `authorization: Bearer <key>` first,
/// then the extra headers in order. A name or value HTTP cannot carry is a
/// configuration error naming it; a bad credential is named only masked.
///
/// The list keeps every entry, duplicates included. Inserted in order into a
/// header map, as the HTTP client does, a later entry replaces an earlier one
/// with the same name (names compare case-insensitively): an extra
/// `authorization` header thus replaces the bearer credential.
pub fn plan_headers(api_key: Option<&str>, headers: &[(String, String)]) -> (r: Result<
    Vec<(String, String)>,
    OpenAiError,
>)
    ensures
        match (r, default_headers(
            match api_key {
                Some(k) => Some(k@),
                None => None,
            },
            pair_views(headers@),
        )) {
            (Ok(v), Ok(expected)) => pair_views(v@) == expected,
            (Err(OpenAiError::Configuration(m)), Err(expected)) => m@ == expected,
            _ => false,
        },
{
    let mut planned: Vec<(String, String)> = Vec::new();
    let ghost key_view: Option<Seq<char>> = match api_key {
        Some(k) => Some(k@),
        None => None,
    };
    if let Some(key) = api_key {
        let value = String::from_str("Bearer ").concat(key);
        match check_header_value(value.as_str()) {
            Ok(()) => {
                planned.push((String::from_str(AUTHORIZATION), value));
            },
            Err(e) => {
                let mut m = String::from_str("API key ").concat(mask_secret(key).as_str());
                m = m.concat(" is not valid header content: ").concat(e.as_str());
                return Err(OpenAiError::Configuration(m));
            },
        }
    }
    let ghost head = pair_views(planned@);
    assert(head == match key_view {
        Some(k) => seq![(AUTHORIZATION@, "Bearer "@ + k)],
        None => Seq::<(Seq<char>, Seq<char>)>::empty(),
    });
    let mut i: usize = 0;
    while i < headers.len()
        invariant
            i <= headers.len(),
            head == pair_views(planned@.take(head.len() as int)),
            planned@.len() == head.len() + i,
            header_plan(pair_views(headers@).take(i as int)) matches Ok(done) && pair_views(
                planned@,
            ) == head + done,
            key_view == (match api_key {
                Some(k) => Some(k@),
                None => None,
            }),
            match key_view {
                Some(k) => header_value_ok(encode_utf8("Bearer "@ + k)),
                None => true,
            },
        decreases headers.len() - i,
    {
        let (name, value) = &headers[i];
        let ghost pre = pair_views(headers@).take(i as int);
        assert(pair_views(headers@).take(i + 1).drop_last() == pre);
        assert(pair_views(headers@).take(i + 1).last() == (name@, value@));
        match check_header_name(name.as_str()) {
            Ok(()) => {},
            Err(e) => {
                let m = String::from_str("invalid header name '").concat(name.as_str()).concat(
                    "': ",
                ).concat(e.as_str());
                proof {
                    lemma_plan_stops(pair_views(headers@), i as int);
                }
                return Err(OpenAiError::Configuration(m));
            },
        }
        match check_header_value(value.as_str()) {
            Ok(()) => {},
            Err(e) => {
                let m = String::from_str("invalid value for header '").concat(
                    lower_text(name.as_str()).as_str(),
                ).concat("': ").concat(e.as_str());
                proof {
                    lemma_plan_stops(pair_views(headers@), i as int);
                }
                return Err(OpenAiError::Configuration(m));
            },
        }
        let ghost before = planned@;
        planned.push((name.clone(), value.clone()));
        proof {
            let cur = pair_views(headers@).take(i + 1);
            assert(cur.drop_last() == pre);
            assert(pair_views(planned@) == pair_views(before).push((name@, value@)));
        }
        assert(pair_views(planned@.take(head.len() as int)) == pair_views(
            planned@.drop_last().take(head.len() as int),
        ));
        i = i + 1;
    }
    assert(pair_views(headers@).take(headers@.len() as int) == pair_views(headers@));
    Ok(planned)
}

/// Once the plan of a prefix fails, the plan of anything longer fails with the
/// same message.
proof fn lemma_plan_stops(pairs: Seq<(Seq<char>, Seq<char>)>, i: int)
    requires
        0 <= i < pairs.len(),
        header_plan(pairs.take(i + 1)) is Err,
    ensures
        header_plan(pairs) == header_plan(pairs.take(i + 1)),
    decreases pairs.len() - i,
{
    if i + 1 == pairs.len() {
        assert(pairs.take(i + 1) == pairs);
    } else {
        assert(pairs.take(i + 2).drop_last() == pairs.take(i + 1));
        lemma_plan_stops(pairs, i + 1);
    }
}

} // verus!
