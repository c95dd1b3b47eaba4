//! The wire codec: JSON text for the two message shapes.
//!
//! An inbound payload is UTF-8 bytes holding one JSON object with exactly the
//! two string members `account_sid` and `call_sid`, in either order, with
//! optional JSON whitespace between tokens. String values use the JSON escape
//! forms `\"`, `\\`, `\/`, `\b`, `\f`, `\n`, `\r`, `\t` and `\uXXXX` for any
//! scalar value below `0x10000`; unescaped control characters are rejected.
//! The encoder escapes `"` and `\` with a backslash and every control
//! character as `\u00XX`, so its output is always well-formed JSON.
//!
//! The grammar is stated by spec functions over character sequences; the
//! executable codec is proved equal to them, and encoding followed by
//! decoding is proved to be the identity. Encoding is total — it cannot
//! fail on any string — so no fallback payload for a failed serialization
//! is ever called for.

use crate::messages::DecodeError;
use crate::messages::IncomingNotification;
use crate::messages::OutgoingResponse;
use vstd::prelude::*;
use vstd::string::StrSliceExecFns;
use vstd::string::StringExecFns;
use vstd::utf8::decode_utf8;
use vstd::utf8::encode_utf8;
use vstd::utf8::encode_utf8_decode_utf8;
use vstd::utf8::encode_utf8_valid_utf8;
use vstd::utf8::is_scalar;
use vstd::utf8::valid_utf8;

verus! {

// ------------------------------------------------------------------
// The grammar, as spec functions over character sequences.
// ------------------------------------------------------------------

/// JSON insignificant whitespace.
pub open spec fn is_json_ws(c: char) -> bool {
    c == ' ' || c == '\t' || c == '\n' || c == '\r'
}

/// The suffix of `s` after any leading JSON whitespace.
pub open spec fn skip_ws(s: Seq<char>) -> Seq<char>
    decreases s.len(),
{
    if s.len() > 0 && is_json_ws(s[0]) {
        skip_ws(s.skip(1))
    } else {
        s
    }
}

/// The rest of `s` after one expected punctuation character, or `None`.
pub open spec fn expect_char(s: Seq<char>, c: char) -> Option<Seq<char>> {
    if s.len() > 0 && s[0] == c {
        Some(s.skip(1))
    } else {
        None
    }
}

/// The value of one hexadecimal digit character, if it is one.
pub open spec fn hex_digit_value(c: char) -> Option<u32> {
    if '0' <= c && c <= '9' {
        Some(((c as u32) - 48) as u32)
    } else if 'a' <= c && c <= 'f' {
        Some(((c as u32) - 87) as u32)
    } else if 'A' <= c && c <= 'F' {
        Some(((c as u32) - 55) as u32)
    } else {
        None
    }
}

/// The character named by a one-character escape code, if any.
pub open spec fn simple_escape(code: char) -> Option<char> {
    if code == '"' {
        Some('"')
    } else if code == '\\' {
        Some('\\')
    } else if code == '/' {
        Some('/')
    } else if code == 'b' {
        Some('\u{8}')
    } else if code == 'f' {
        Some('\u{c}')
    } else if code == 'n' {
        Some('\n')
    } else if code == 'r' {
        Some('\r')
    } else if code == 't' {
        Some('\t')
    } else {
        None
    }
}

/// Parses the body of a JSON string up to and over its closing quote:
/// the decoded contents, and the input after the closing quote.
pub open spec fn parse_string_body(s: Seq<char>) -> Option<(Seq<char>, Seq<char>)>
    decreases s.len(),
{
    if s.len() == 0 {
        None
    } else if s[0] == '"' {
        Some((Seq::empty(), s.skip(1)))
    } else if s[0] == '\\' {
        if s.len() < 2 {
            None
        } else if s[1] == 'u' {
            if s.len() >= 6 && hex_digit_value(s[2]) is Some && hex_digit_value(s[3]) is Some
                && hex_digit_value(s[4]) is Some && hex_digit_value(s[5]) is Some {
                let v = ((hex_digit_value(s[2]).unwrap() * 4096 + hex_digit_value(s[3]).unwrap()
                    * 256 + hex_digit_value(s[4]).unwrap() * 16 + hex_digit_value(
                    s[5],
                ).unwrap()) as u32);
                if is_scalar(v) {
                    match parse_string_body(s.skip(6)) {
                        Some((tail, rest)) => Some((seq![v as char] + tail, rest)),
                        None => None,
                    }
                } else {
                    None
                }
            } else {
                None
            }
        } else {
            match simple_escape(s[1]) {
                Some(e) => match parse_string_body(s.skip(2)) {
                    Some((tail, rest)) => Some((seq![e] + tail, rest)),
                    None => None,
                },
                None => None,
            }
        }
    } else if (s[0] as u32) < 0x20 {
        None
    } else {
        match parse_string_body(s.skip(1)) {
            Some((tail, rest)) => Some((seq![s[0]] + tail, rest)),
            None => None,
        }
    }
}

/// Parses one `"key" : "value"` member: the key, the value, and the rest.
pub open spec fn parse_member(s: Seq<char>) -> Option<(Seq<char>, Seq<char>, Seq<char>)> {
    match expect_char(s, '"') {
        Some(r0) => match parse_string_body(r0) {
            Some((key, r1)) => match expect_char(skip_ws(r1), ':') {
                Some(r2) => match expect_char(skip_ws(r2), '"') {
                    Some(r3) => match parse_string_body(r3) {
                        Some((value, r4)) => Some((key, value, r4)),
                        None => None,
                    },
                    None => None,
                },
                None => None,
            },
            None => None,
        },
        None => None,
    }
}

pub open spec fn account_key() -> Seq<char> {
    "account_sid"@
}

pub open spec fn call_key() -> Seq<char> {
    "call_sid"@
}

/// Parses a whole notification text: an object holding exactly the members
/// `account_sid` and `call_sid`, in either order, and nothing after it.
/// The result is the pair (account_sid, call_sid).
pub open spec fn parse_notification_text(s: Seq<char>) -> Option<(Seq<char>, Seq<char>)> {
    match expect_char(skip_ws(s), '{') {
        Some(r0) => match parse_member(skip_ws(r0)) {
            Some((k1, v1, r1)) => match expect_char(skip_ws(r1), ',') {
                Some(r2) => match parse_member(skip_ws(r2)) {
                    Some((k2, v2, r3)) => match expect_char(skip_ws(r3), '}') {
                        Some(r4) => if skip_ws(r4).len() == 0 {
                            if k1 == account_key() && k2 == call_key() {
                                Some((v1, v2))
                            } else if k1 == call_key() && k2 == account_key() {
                                Some((v2, v1))
                            } else {
                                None
                            }
                        } else {
                            None
                        },
                        None => None,
                    },
                    None => None,
                },
                None => None,
            },
            None => None,
        },
        None => None,
    }
}

/// What decoding an inbound payload yields: the (account_sid, call_sid)
/// pair, or the error that rejects it. Bytes that are not UTF-8 are
/// rejected as `Encoding` before any parsing; well-encoded text that is not
/// a well-formed notification object is rejected as `Schema`.
pub open spec fn decode_outcome(bytes: Seq<u8>) -> Result<(Seq<char>, Seq<char>), DecodeError> {
    if !valid_utf8(bytes) {
        Err(DecodeError::Encoding)
    } else {
        match parse_notification_text(decode_utf8(bytes)) {
            Some(p) => Ok(p),
            None => Err(DecodeError::Schema),
        }
    }
}

// ------------------------------------------------------------------
// The encoder's output, as spec functions.
// ------------------------------------------------------------------

/// The lower-case hexadecimal digit for a value below sixteen.
pub open spec fn hex_digit_char(v: u32) -> char
    recommends
        v < 16,
{
    if v == 0 {
        '0'
    } else if v == 1 {
        '1'
    } else if v == 2 {
        '2'
    } else if v == 3 {
        '3'
    } else if v == 4 {
        '4'
    } else if v == 5 {
        '5'
    } else if v == 6 {
        '6'
    } else if v == 7 {
        '7'
    } else if v == 8 {
        '8'
    } else if v == 9 {
        '9'
    } else if v == 10 {
        'a'
    } else if v == 11 {
        'b'
    } else if v == 12 {
        'c'
    } else if v == 13 {
        'd'
    } else if v == 14 {
        'e'
    } else {
        'f'
    }
}

/// How the encoder writes one character inside a JSON string.
pub open spec fn escape_char(c: char) -> Seq<char> {
    if c == '"' {
        seq!['\\', '"']
    } else if c == '\\' {
        seq!['\\', '\\']
    } else if (c as u32) < 0x20 {
        seq!['\\', 'u', '0', '0', hex_digit_char(((c as u32) / 16) as u32), hex_digit_char(
            ((c as u32) % 16) as u32,
        )]
    } else {
        seq![c]
    }
}

/// How the encoder writes a whole string value.
pub open spec fn escape_chars(s: Seq<char>) -> Seq<char>
    decreases s.len(),
{
    if s.len() == 0 {
        Seq::empty()
    } else {
        escape_char(s[0]) + escape_chars(s.skip(1))
    }
}

/// The JSON text the encoder produces for a notification.
pub open spec fn notification_json(account_sid: Seq<char>, call_sid: Seq<char>) -> Seq<char> {
    "{\"account_sid\":\""@ + escape_chars(account_sid) + "\",\"call_sid\":\""@ + escape_chars(
        call_sid,
    ) + "\"}"@
}

/// The JSON text the encoder produces for a response.
pub open spec fn response_json(content: Seq<char>) -> Seq<char> {
    "{\"content\":\""@ + escape_chars(content) + "\"}"@
}

/// The fixed content of every outbound response.
pub open spec fn response_content() -> Seq<char> {
    "This was sent asynchronously through Rabbit MQ"@
}

// ------------------------------------------------------------------
// Trusted bridges to the standard library.
// ------------------------------------------------------------------

/// Relies on `std::str::from_utf8`: it returns `Ok` exactly when the bytes
/// are valid UTF-8, and the returned text is read from those same bytes.
#[verifier::external_body]
fn bytes_as_str(v: &[u8]) -> (r: Option<&str>)
    ensures
        r is Some <==> valid_utf8(v@),
        r matches Some(s) ==> encode_utf8(s@) == v@,
{
    std::str::from_utf8(v).ok()
}

/// Relies on `char::from_u32`: it returns `Some` exactly on Unicode scalar
/// values, and the returned character has the given value.
#[verifier::external_body]
fn char_from_u32(v: u32) -> (r: Option<char>)
    ensures
        r is Some <==> is_scalar(v),
        r matches Some(c) ==> c as u32 == v,
{
    char::from_u32(v)
}

/// Relies on `String::push`: it appends exactly the one character.
#[verifier::external_body]
fn push_char(s: &mut String, c: char)
    ensures
        final(s)@ == old(s)@.push(c),
{
    s.push(c);
}

// ------------------------------------------------------------------
// Small executable helpers.
// ------------------------------------------------------------------

/// The suffix of `s` from index `i` on.
pub open spec fn suffix_from(s: Seq<char>, i: int) -> Seq<char>
    recommends
        0 <= i <= s.len(),
{
    s.subrange(i, s.len() as int)
}

fn is_ws_char(c: char) -> (r: bool)
    ensures
        r == is_json_ws(c),
{
    c == ' ' || c == '\t' || c == '\n' || c == '\r'
}

fn hex_digit(c: char) -> (r: Option<u32>)
    ensures
        r == hex_digit_value(c),
{
    let u = c as u32;
    if 48 <= u && u <= 57 {
        Some(u - 48)
    } else if 97 <= u && u <= 102 {
        Some(u - 87)
    } else if 65 <= u && u <= 70 {
        Some(u - 55)
    } else {
        None
    }
}

fn hex_char(v: u32) -> (c: char)
    requires
        v < 16,
    ensures
        c == hex_digit_char(v),
{
    if v == 0 {
        '0'
    } else if v == 1 {
        '1'
    } else if v == 2 {
        '2'
    } else if v == 3 {
        '3'
    } else if v == 4 {
        '4'
    } else if v == 5 {
        '5'
    } else if v == 6 {
        '6'
    } else if v == 7 {
        '7'
    } else if v == 8 {
        '8'
    } else if v == 9 {
        '9'
    } else if v == 10 {
        'a'
    } else if v == 11 {
        'b'
    } else if v == 12 {
        'c'
    } else if v == 13 {
        'd'
    } else if v == 14 {
        'e'
    } else {
        'f'
    }
}

/// The characters of a text, in order.
fn text_chars(s: &str) -> (v: Vec<char>)
    ensures
        v@ == s@,
{
    let n = s.unicode_len();
    let mut out: Vec<char> = Vec::new();
    let mut i: usize = 0;
    while i < n
        invariant
            i <= n,
            n == s@.len(),
            out@ == s@.subrange(0, i as int),
        decreases n - i,
    {
        out.push(s.get_char(i));
        proof {
            assert(s@.subrange(0, i as int).push(s@[i as int]) =~= s@.subrange(0, i + 1));
        }
        i += 1;
    }
    proof {
        assert(s@.subrange(0, n as int) =~= s@);
    }
    out
}

/// Builds the owned text holding exactly the given characters.
fn chars_to_string(v: &Vec<char>) -> (r: String)
    ensures
        r@ == v@,
{
    let mut out = String::new();
    let mut i: usize = 0;
    while i < v.len()
        invariant
            i <= v@.len(),
            out@ == v@.subrange(0, i as int),
        decreases v@.len() - i,
    {
        push_char(&mut out, v[i]);
        proof {
            assert(v@.subrange(0, i as int).push(v@[i as int]) =~= v@.subrange(0, i + 1));
        }
        i += 1;
    }
    proof {
        assert(v@.subrange(0, v@.len() as int) =~= v@);
    }
    out
}

/// True exactly when the characters equal the text's characters.
fn chars_match_str(k: &Vec<char>, s: &str) -> (r: bool)
    ensures
        r == (k@ == s@),
{
    let n = s.unicode_len();
    if k.len() != n {
        return false;
    }
    let mut i: usize = 0;
    while i < n
        invariant
            i <= n,
            n == s@.len(),
            k@.len() == n,
            forall|j: int| 0 <= j < i ==> k@[j] == s@[j],
        decreases n - i,
    {
        if k[i] != s.get_char(i) {
            return false;
        }
        i += 1;
    }
    proof {
        assert(k@ =~= s@);
    }
    true
}

// ------------------------------------------------------------------
// The decoder.
// ------------------------------------------------------------------

fn simple_escape_code(code: char) -> (r: Option<char>)
    ensures
        r == simple_escape(code),
{
    if code == '"' {
        Some('"')
    } else if code == '\\' {
        Some('\\')
    } else if code == '/' {
        Some('/')
    } else if code == 'b' {
        Some('\u{8}')
    } else if code == 'f' {
        Some('\u{c}')
    } else if code == 'n' {
        Some('\n')
    } else if code == 'r' {
        Some('\r')
    } else if code == 't' {
        Some('\t')
    } else {
        None
    }
}

fn scan_ws(chars: &Vec<char>, from: usize) -> (r: usize)
    requires
        from <= chars@.len(),
    ensures
        from <= r <= chars@.len(),
        suffix_from(chars@, r as int) == skip_ws(suffix_from(chars@, from as int)),
{
    let ghost s = chars@;
    let mut i: usize = from;
    while i < chars.len() && is_ws_char(chars[i])
        invariant
            from <= i <= s.len(),
            s == chars@,
            skip_ws(suffix_from(s, from as int)) == skip_ws(suffix_from(s, i as int)),
        decreases s.len() - i,
    {
        proof {
            assert(suffix_from(s, i as int)[0] == s[i as int]);
            assert(suffix_from(s, i as int).skip(1) =~= suffix_from(s, i + 1));
        }
        i += 1;
    }
    proof {
        assert(skip_ws(suffix_from(s, i as int)) == suffix_from(s, i as int));
    }
    i
}

#[verifier::rlimit(100)]
fn scan_string_body(chars: &Vec<char>, from: usize) -> (r: Option<(Vec<char>, usize)>)
    requires
        from <= chars@.len(),
    ensures
        (match parse_string_body(suffix_from(chars@, from as int)) {
            Some((content, rest)) => r matches Some(p) && p.0@ == content && from <= p.1
                <= chars@.len() && suffix_from(chars@, p.1 as int) == rest,
            None => r is None,
        }),
{
    let ghost s = chars@;
    let mut acc: Vec<char> = Vec::new();
    let mut i: usize = from;
    loop
        invariant
            from <= i <= s.len(),
            s == chars@,
            parse_string_body(suffix_from(s, from as int)) == (match parse_string_body(
                suffix_from(s, i as int),
            ) {
                Some((tail, rest)) => Some((acc@ + tail, rest)),
                None => None::<(Seq<char>, Seq<char>)>,
            }),
        decreases s.len() - i,
    {
        if i >= chars.len() {
            proof {
                assert(suffix_from(s, i as int).len() == 0);
            }
            return None;
        }
        let c = chars[i];
        proof {
            assert(suffix_from(s, i as int)[0] == s[i as int]);
        }
        if c == '"' {
            proof {
                assert(suffix_from(s, i as int).skip(1) =~= suffix_from(s, i + 1));
                assert(parse_string_body(suffix_from(s, i as int)) == Some(
                    (Seq::<char>::empty(), suffix_from(s, i + 1)),
                ));
                assert(acc@ + Seq::<char>::empty() =~= acc@);
            }
            return Some((acc, i + 1));
        } else if c == '\\' {
            let ghost suf = suffix_from(s, i as int);
            if i + 1 >= chars.len() {
                proof {
                    assert(suf.len() < 2);
                }
                return None;
            }
            let c2 = chars[i + 1];
            proof {
                assert(suf[1] == s[i + 1]);
            }
            if c2 == 'u' {
                if chars.len() - i < 6 {
                    proof {
                        assert(suf.len() < 6);
                    }
                    return None;
                }
                proof {
                    assert(suf[2] == s[i + 2]);
                    assert(suf[3] == s[i + 3]);
                    assert(suf[4] == s[i + 4]);
                    assert(suf[5] == s[i + 5]);
                }
                let h1 = match hex_digit(chars[i + 2]) {
                    Some(h) => h,
                    None => {
                        return None;
                    },
                };
                let h2 = match hex_digit(chars[i + 3]) {
                    Some(h) => h,
                    None => {
                        return None;
                    },
                };
                let h3 = match hex_digit(chars[i + 4]) {
                    Some(h) => h,
                    None => {
                        return None;
                    },
                };
                let h4 = match hex_digit(chars[i + 5]) {
                    Some(h) => h,
                    None => {
                        return None;
                    },
                };
                let v: u32 = h1 * 4096 + h2 * 256 + h3 * 16 + h4;
                match char_from_u32(v) {
                    None => {
                        return None;
                    },
                    Some(e) => {
                        let ghost acc0 = acc@;
                        acc.push(e);
                        proof {
                            vstd::utf8::char_u32_cast(e, v);
                            assert(suf.skip(6) =~= suffix_from(s, i + 6));
                            assert(parse_string_body(suf) == (match parse_string_body(
                                suffix_from(s, i + 6),
                            ) {
                                Some((tail, rest)) => Some((seq![e] + tail, rest)),
                                None => None::<(Seq<char>, Seq<char>)>,
                            }));
                            match parse_string_body(suffix_from(s, i + 6)) {
                                Some((tail, rest)) => {
                                    assert(acc0 + (seq![e] + tail) =~= acc@ + tail);
                                },
                                None => {},
                            }
                        }
                        i = i + 6;
                    },
                }
            } else {
                match simple_escape_code(c2) {
                    None => {
                        return None;
                    },
                    Some(e) => {
                        let ghost acc0 = acc@;
                        acc.push(e);
                        proof {
                            assert(suf.skip(2) =~= suffix_from(s, i + 2));
                            assert(parse_string_body(suf) == (match parse_string_body(
                                suffix_from(s, i + 2),
                            ) {
                                Some((tail, rest)) => Some((seq![e] + tail, rest)),
                                None => None::<(Seq<char>, Seq<char>)>,
                            }));
                            match parse_string_body(suffix_from(s, i + 2)) {
                                Some((tail, rest)) => {
                                    assert(acc0 + (seq![e] + tail) =~= acc@ + tail);
                                },
                                None => {},
                            }
                        }
                        i = i + 2;
                    },
                }
            }
        } else if (c as u32) < 0x20 {
            return None;
        } else {
            let ghost acc0 = acc@;
            acc.push(c);
            proof {
                assert(suffix_from(s, i as int).skip(1) =~= suffix_from(s, i + 1));
                assert(parse_string_body(suffix_from(s, i as int)) == (match parse_string_body(
                    suffix_from(s, i + 1),
                ) {
                    Some((tail, rest)) => Some((seq![c] + tail, rest)),
                    None => None::<(Seq<char>, Seq<char>)>,
                }));
                match parse_string_body(suffix_from(s, i + 1)) {
                    Some((tail, rest)) => {
                        assert(acc0 + (seq![c] + tail) =~= acc@ + tail);
                    },
                    None => {},
                }
            }
            i = i + 1;
        }
    }
}

fn scan_member(chars: &Vec<char>, from: usize) -> (r: Option<(Vec<char>, Vec<char>, usize)>)
    requires
        from <= chars@.len(),
    ensures
        (match parse_member(suffix_from(chars@, from as int)) {
            Some((key, value, rest)) => r matches Some(m) && m.0@ == key && m.1@ == value && from
                <= m.2 <= chars@.len() && suffix_from(chars@, m.2 as int) == rest,
            None => r is None,
        }),
{
    let ghost s = chars@;
    if from >= chars.len() {
        return None;
    }
    if chars[from] != '"' {
        proof {
            assert(suffix_from(s, from as int)[0] == s[from as int]);
        }
        return None;
    }
    proof {
        assert(suffix_from(s, from as int)[0] == s[from as int]);
        assert(suffix_from(s, from as int).skip(1) =~= suffix_from(s, from + 1));
    }
    let (key, j1) = match scan_string_body(chars, from + 1) {
        None => {
            return None;
        },
        Some(p) => p,
    };
    let j2 = scan_ws(chars, j1);
    if j2 >= chars.len() {
        return None;
    }
    if chars[j2] != ':' {
        proof {
            assert(suffix_from(s, j2 as int)[0] == s[j2 as int]);
        }
        return None;
    }
    proof {
        assert(suffix_from(s, j2 as int)[0] == s[j2 as int]);
        assert(suffix_from(s, j2 as int).skip(1) =~= suffix_from(s, j2 + 1));
    }
    let j3 = scan_ws(chars, j2 + 1);
    if j3 >= chars.len() {
        return None;
    }
    if chars[j3] != '"' {
        proof {
            assert(suffix_from(s, j3 as int)[0] == s[j3 as int]);
        }
        return None;
    }
    proof {
        assert(suffix_from(s, j3 as int)[0] == s[j3 as int]);
        assert(suffix_from(s, j3 as int).skip(1) =~= suffix_from(s, j3 + 1));
    }
    let (value, j4) = match scan_string_body(chars, j3 + 1) {
        None => {
            return None;
        },
        Some(p) => p,
    };
    Some((key, value, j4))
}

#[verifier::rlimit(100)]
fn scan_notification(chars: &Vec<char>) -> (r: Option<(Vec<char>, Vec<char>)>)
    ensures
        (match parse_notification_text(chars@) {
            Some((a, c)) => r matches Some(p) && p.0@ == a && p.1@ == c,
            None => r is None,
        }),
{
    let ghost s = chars@;
    proof {
        assert(suffix_from(s, 0) =~= s);
    }
    let i0 = scan_ws(chars, 0);
    if i0 >= chars.len() {
        return None;
    }
    if chars[i0] != '{' {
        proof {
            assert(suffix_from(s, i0 as int)[0] == s[i0 as int]);
        }
        return None;
    }
    proof {
        assert(suffix_from(s, i0 as int)[0] == s[i0 as int]);
        assert(suffix_from(s, i0 as int).skip(1) =~= suffix_from(s, i0 + 1));
    }
    let i1 = scan_ws(chars, i0 + 1);
    let (k1, v1, j1) = match scan_member(chars, i1) {
        None => {
            return None;
        },
        Some(m) => m,
    };
    let j2 = scan_ws(chars, j1);
    if j2 >= chars.len() {
        return None;
    }
    if chars[j2] != ',' {
        proof {
            assert(suffix_from(s, j2 as int)[0] == s[j2 as int]);
        }
        return None;
    }
    proof {
        assert(suffix_from(s, j2 as int)[0] == s[j2 as int]);
        assert(suffix_from(s, j2 as int).skip(1) =~= suffix_from(s, j2 + 1));
    }
    let j3 = scan_ws(chars, j2 + 1);
    let (k2, v2, j4) = match scan_member(chars, j3) {
        None => {
            return None;
        },
        Some(m) => m,
    };
    let j5 = scan_ws(chars, j4);
    if j5 >= chars.len() {
        return None;
    }
    if chars[j5] != '}' {
        proof {
            assert(suffix_from(s, j5 as int)[0] == s[j5 as int]);
        }
        return None;
    }
    proof {
        assert(suffix_from(s, j5 as int)[0] == s[j5 as int]);
        assert(suffix_from(s, j5 as int).skip(1) =~= suffix_from(s, j5 + 1));
    }
    let j6 = scan_ws(chars, j5 + 1);
    if j6 < chars.len() {
        return None;
    }
    let k1_account = chars_match_str(&k1, "account_sid");
    let k1_call = chars_match_str(&k1, "call_sid");
    let k2_account = chars_match_str(&k2, "account_sid");
    let k2_call = chars_match_str(&k2, "call_sid");
    if k1_account && k2_call {
        Some((v1, v2))
    } else if k1_call && k2_account {
        Some((v2, v1))
    } else {
        None
    }
}

/// Decodes one inbound payload: UTF-8 text holding a notification object.
/// Bytes that are not UTF-8 fail as `Encoding` before any parsing; text
/// that is not a well-formed notification object fails as `Schema`.
pub fn decode_notification(payload: &[u8]) -> (r: Result<IncomingNotification, DecodeError>)
    ensures
        (match r {
            Ok(n) => decode_outcome(payload@) == Ok::<(Seq<char>, Seq<char>), DecodeError>(
                (n.account_sid@, n.call_sid@),
            ),
            Err(e) => decode_outcome(payload@) == Err::<(Seq<char>, Seq<char>), DecodeError>(e),
        }),
{
    match bytes_as_str(payload) {
        None => Err(DecodeError::Encoding),
        Some(text) => {
            proof {
                vstd::utf8::encode_utf8_valid_utf8(text@);
                vstd::utf8::encode_utf8_decode_utf8(text@);
            }
            let chars = text_chars(text);
            match scan_notification(&chars) {
                None => Err(DecodeError::Schema),
                Some((a, c)) => Ok(
                    IncomingNotification {
                        account_sid: chars_to_string(&a),
                        call_sid: chars_to_string(&c),
                    },
                ),
            }
        },
    }
}

// ------------------------------------------------------------------
// The encoder.
// ------------------------------------------------------------------

proof fn lemma_escape_chars_snoc(x: Seq<char>, c: char)
    ensures
        escape_chars(x.push(c)) == escape_chars(x) + escape_char(c),
    decreases x.len(),
{
    if x.len() == 0 {
        assert(x.push(c)[0] == c);
        assert(x.push(c).skip(1) =~= Seq::<char>::empty());
        assert(escape_chars(Seq::<char>::empty()) =~= Seq::<char>::empty());
        assert(escape_chars(x.push(c)) == escape_char(c) + escape_chars(Seq::<char>::empty()));
        assert(escape_char(c) + Seq::<char>::empty() =~= escape_char(c));
        assert(escape_chars(x) + escape_char(c) =~= escape_char(c));
    } else {
        assert(x.push(c)[0] == x[0]);
        assert(x.push(c).skip(1) =~= x.skip(1).push(c));
        lemma_escape_chars_snoc(x.skip(1), c);
        assert(escape_chars(x.push(c)) == escape_char(x[0]) + (escape_chars(x.skip(1))
            + escape_char(c)));
        assert(escape_chars(x) == escape_char(x[0]) + escape_chars(x.skip(1)));
        assert(escape_char(x[0]) + (escape_chars(x.skip(1)) + escape_char(c)) =~= (escape_char(
            x[0],
        ) + escape_chars(x.skip(1))) + escape_char(c));
    }
    assert(escape_chars(x.push(c)) =~= escape_chars(x) + escape_char(c));
}

/// Appends the JSON-escaped form of `s` to `out`.
fn append_escaped(out: &mut String, s: &str)
    ensures
        final (out)@ == old(out)@ + escape_chars(s@),
{
    let n = s.unicode_len();
    let mut i: usize = 0;
    while i < n
        invariant
            i <= n,
            n == s@.len(),
            out@ == old(out)@ + escape_chars(s@.subrange(0, i as int)),
        decreases n - i,
    {
        let c = s.get_char(i);
        let ghost pre = out@;
        let u = c as u32;
        if c == '"' {
            push_char(out, '\\');
            push_char(out, '"');
            proof {
                assert(pre.push('\\').push('"') =~= pre + escape_char(c));
            }
        } else if c == '\\' {
            push_char(out, '\\');
            push_char(out, '\\');
            proof {
                assert(pre.push('\\').push('\\') =~= pre + escape_char(c));
            }
        } else if u < 0x20 {
            push_char(out, '\\');
            push_char(out, 'u');
            push_char(out, '0');
            push_char(out, '0');
            push_char(out, hex_char(u / 16));
            push_char(out, hex_char(u % 16));
            proof {
                assert(pre.push('\\').push('u').push('0').push('0').push(
                    hex_digit_char((u / 16) as u32),
                ).push(hex_digit_char((u % 16) as u32)) =~= pre + escape_char(c));
            }
        } else {
            push_char(out, c);
            proof {
                assert(pre.push(c) =~= pre + escape_char(c));
            }
        }
        proof {
            lemma_escape_chars_snoc(s@.subrange(0, i as int), s@[i as int]);
            assert(s@.subrange(0, i as int).push(s@[i as int]) =~= s@.subrange(0, i + 1));
            assert((old(out)@ + escape_chars(s@.subrange(0, i as int))) + escape_char(
                s@[i as int],
            ) =~= old(out)@ + escape_chars(s@.subrange(0, i + 1)));
        }
        i += 1;
    }
    proof {
        assert(s@.subrange(0, n as int) =~= s@);
    }
}

/// Encodes a notification as JSON text. Decoding this text yields the same
/// notification back.
pub fn encode_notification(n: &IncomingNotification) -> (r: String)
    ensures
        r@ == notification_json(n.account_sid@, n.call_sid@),
{
    let mut out = String::new();
    out.append("{\"account_sid\":\"");
    append_escaped(&mut out, n.account_sid.as_str());
    out.append("\",\"call_sid\":\"");
    append_escaped(&mut out, n.call_sid.as_str());
    out.append("\"}");
    proof {
        assert(out@ =~= notification_json(n.account_sid@, n.call_sid@));
    }
    out
}

/// Encodes a response as JSON text.
pub fn encode_response(m: &OutgoingResponse) -> (r: String)
    ensures
        r@ == response_json(m.content@),
{
    let mut out = String::new();
    out.append("{\"content\":\"");
    append_escaped(&mut out, m.content.as_str());
    out.append("\"}");
    proof {
        assert(out@ =~= response_json(m.content@));
    }
    out
}

/// The fixed response sent for every successfully decoded notification.
pub fn default_response() -> (r: OutgoingResponse)
    ensures
        r.content@ == response_content(),
{
    OutgoingResponse { content: "This was sent asynchronously through Rabbit MQ".to_owned() }
}

/// The serialized bytes of the fixed response: what the responder publishes.
pub fn response_payload() -> (b: Vec<u8>)
    ensures
        b@ == encode_utf8(response_json(response_content())),
{
    let r = default_response();
    let text = encode_response(&r);
    text.as_str().as_bytes_vec()
}

// ------------------------------------------------------------------
// Laws: encoding then decoding is the identity, and bad bytes are
// rejected before parsing.
// ------------------------------------------------------------------

/// A character the encoder writes as itself: no quote, no backslash, no
/// control character.
pub open spec fn is_plain_char(c: char) -> bool {
    c != '"' && c != '\\' && (c as u32) >= 0x20
}

proof fn lemma_escape_plain(s: Seq<char>)
    requires
        forall|i: int| 0 <= i < s.len() ==> is_plain_char(#[trigger] s[i]),
    ensures
        escape_chars(s) == s,
    decreases s.len(),
{
    if s.len() == 0 {
        assert(escape_chars(s) =~= s);
    } else {
        assert(is_plain_char(s[0]));
        assert(escape_char(s[0]) =~= seq![s[0]]);
        lemma_escape_plain(s.skip(1));
        assert(escape_chars(s) == escape_char(s[0]) + escape_chars(s.skip(1)));
        assert(seq![s[0]] + s.skip(1) =~= s);
    }
}

proof fn lemma_hex_digit_round(v: u32)
    requires
        v < 16,
    ensures
        hex_digit_value(hex_digit_char(v)) == Some(v),
{
}

proof fn lemma_parse_escaped(x: Seq<char>, t: Seq<char>)
    ensures
        parse_string_body(escape_chars(x) + seq!['"'] + t) == Some((x, t)),
    decreases x.len(),
{
    let s = escape_chars(x) + seq!['"'] + t;
    if x.len() == 0 {
        assert(escape_chars(x) =~= Seq::<char>::empty());
        assert(s =~= seq!['"'] + t);
        assert(s[0] == '"');
        assert(s.skip(1) =~= t);
        assert(parse_string_body(s) == Some((Seq::<char>::empty(), t)));
        assert(x =~= Seq::<char>::empty());
    } else {
        let c = x[0];
        let rest = x.skip(1);
        lemma_parse_escaped(rest, t);
        let s2 = escape_chars(rest) + seq!['"'] + t;
        assert(escape_chars(x) == escape_char(c) + escape_chars(rest));
        assert(s =~= escape_char(c) + s2);
        if c == '"' {
            assert(escape_char(c) =~= seq!['\\', '"']);
            assert(s[0] == '\\');
            assert(s[1] == '"');
            assert(s.len() >= 2);
            assert(simple_escape('"') == Some('"'));
            assert(s.skip(2) =~= s2);
            assert(parse_string_body(s) == Some((seq![c] + rest, t)));
        } else if c == '\\' {
            assert(escape_char(c) =~= seq!['\\', '\\']);
            assert(s[0] == '\\');
            assert(s[1] == '\\');
            assert(s.len() >= 2);
            assert(simple_escape('\\') == Some('\\'));
            assert(s.skip(2) =~= s2);
            assert(parse_string_body(s) == Some((seq![c] + rest, t)));
        } else if (c as u32) < 0x20 {
            let u = c as u32;
            let d1 = ((u / 16) as u32);
            let d2 = ((u % 16) as u32);
            assert(escape_char(c) =~= seq!['\\', 'u', '0', '0', hex_digit_char(d1), hex_digit_char(
                d2,
            )]);
            assert(s[0] == '\\');
            assert(s[1] == 'u');
            assert(s[2] == '0');
            assert(s[3] == '0');
            assert(s[4] == hex_digit_char(d1));
            assert(s[5] == hex_digit_char(d2));
            assert(s.len() >= 6);
            assert(hex_digit_value('0') == Some(0u32));
            lemma_hex_digit_round(d1);
            lemma_hex_digit_round(d2);
            let v = ((hex_digit_value(s[2]).unwrap() * 4096 + hex_digit_value(s[3]).unwrap() * 256
                + hex_digit_value(s[4]).unwrap() * 16 + hex_digit_value(s[5]).unwrap()) as u32);
            assert(v == u);
            vstd::utf8::char_is_scalar(c);
            vstd::utf8::char_u32_cast(c, u);
            assert(is_scalar(v));
            assert(v as char == c);
            assert(s.skip(6) =~= s2);
            assert(parse_string_body(s) == Some((seq![c] + rest, t)));
        } else {
            assert(escape_char(c) =~= seq![c]);
            assert(s[0] == c);
            assert(s.skip(1) =~= s2);
            assert(parse_string_body(s) == Some((seq![c] + rest, t)));
        }
        assert(seq![c] + rest =~= x);
    }
}

#[verifier::rlimit(100)]
proof fn lemma_parse_member_formed(key: Seq<char>, value: Seq<char>, t: Seq<char>)
    requires
        forall|i: int| 0 <= i < key.len() ==> is_plain_char(#[trigger] key[i]),
    ensures
        parse_member(seq!['"'] + key + seq!['"', ':', '"'] + escape_chars(value) + seq!['"'] + t)
            == Some((key, value, t)),
{
    let s = seq!['"'] + key + seq!['"', ':', '"'] + escape_chars(value) + seq!['"'] + t;
    assert(s[0] == '"');
    let r0 = s.skip(1);
    let t1 = seq![':', '"'] + escape_chars(value) + seq!['"'] + t;
    lemma_escape_plain(key);
    assert(r0 =~= escape_chars(key) + seq!['"'] + t1);
    lemma_parse_escaped(key, t1);
    assert(parse_string_body(r0) == Some((key, t1)));
    assert(t1[0] == ':');
    assert(!is_json_ws(':'));
    assert(skip_ws(t1) == t1);
    let r2 = t1.skip(1);
    let t2 = escape_chars(value) + seq!['"'] + t;
    assert(r2 =~= seq!['"'] + t2);
    assert(r2[0] == '"');
    assert(!is_json_ws('"'));
    assert(skip_ws(r2) == r2);
    let r3 = r2.skip(1);
    assert(r3 =~= t2);
    lemma_parse_escaped(value, t);
    assert(parse_string_body(r3) == Some((value, t)));
}

#[verifier::rlimit(100)]
proof fn lemma_parse_notification_json(a: Seq<char>, c: Seq<char>)
    ensures
        parse_notification_text(notification_json(a, c)) == Some((a, c)),
{
    reveal_strlit("{\"account_sid\":\"");
    reveal_strlit("\",\"call_sid\":\"");
    reveal_strlit("\"}");
    reveal_strlit("account_sid");
    reveal_strlit("call_sid");
    let s = notification_json(a, c);
    let p1 = "{\"account_sid\":\""@;
    let p2 = "\",\"call_sid\":\""@;
    let p3 = "\"}"@;
    let akey = "account_sid"@;
    let ckey = "call_sid"@;
    assert(akey.len() == 11);
    assert(ckey.len() == 8);
    assert(forall|i: int| 0 <= i < akey.len() ==> is_plain_char(#[trigger] akey[i]));
    assert(forall|i: int| 0 <= i < ckey.len() ==> is_plain_char(#[trigger] ckey[i]));
    let t2 = seq!['}'];
    let m2 = seq!['"'] + ckey + seq!['"', ':', '"'] + escape_chars(c) + seq!['"'] + t2;
    let t1 = seq![','] + m2;
    let m1 = seq!['"'] + akey + seq!['"', ':', '"'] + escape_chars(a) + seq!['"'] + t1;
    assert(p1 =~= seq!['{', '"'] + akey + seq!['"', ':', '"']);
    assert(p2 =~= seq!['"', ',', '"'] + ckey + seq!['"', ':', '"']);
    assert(p3 =~= seq!['"', '}']);
    assert(s =~= seq!['{'] + m1);
    assert(s[0] == '{');
    assert(!is_json_ws('{'));
    assert(skip_ws(s) == s);
    assert(s.skip(1) =~= m1);
    assert(m1[0] == '"');
    assert(!is_json_ws('"'));
    assert(skip_ws(m1) == m1);
    lemma_parse_member_formed(akey, a, t1);
    assert(parse_member(m1) == Some((akey, a, t1)));
    assert(t1[0] == ',');
    assert(!is_json_ws(','));
    assert(skip_ws(t1) == t1);
    assert(t1.skip(1) =~= m2);
    assert(m2[0] == '"');
    assert(skip_ws(m2) == m2);
    lemma_parse_member_formed(ckey, c, t2);
    assert(parse_member(m2) == Some((ckey, c, t2)));
    assert(t2[0] == '}');
    assert(!is_json_ws('}'));
    assert(skip_ws(t2) == t2);
    assert(t2.skip(1) =~= Seq::<char>::empty());
    assert(skip_ws(Seq::<char>::empty()).len() == 0);
    assert(akey == account_key());
    assert(ckey == call_key());
    assert(parse_notification_text(s) == Some((a, c)));
}

/// Encoding a notification and decoding the encoded bytes yields the same
/// pair of identifiers back, whatever they hold.
pub proof fn lemma_round_trip(account_sid: Seq<char>, call_sid: Seq<char>)
    ensures
        decode_outcome(encode_utf8(notification_json(account_sid, call_sid))) == Ok::<
            (Seq<char>, Seq<char>),
            DecodeError,
        >((account_sid, call_sid)),
{
    broadcast use encode_utf8_valid_utf8;
    broadcast use encode_utf8_decode_utf8;

    lemma_parse_notification_json(account_sid, call_sid);
}

/// A payload that is not valid UTF-8 is rejected as an encoding error; the
/// outcome never depends on any parse of its contents.
pub proof fn lemma_invalid_utf8_rejected(bytes: Seq<u8>)
    requires
        !valid_utf8(bytes),
    ensures
        decode_outcome(bytes) == Err::<(Seq<char>, Seq<char>), DecodeError>(DecodeError::Encoding),
{
}

} // verus!
