//! Percent-encoding (through `urlencoding`) and JSON string literals (through `serde_json`).
use vstd::prelude::*;
use vstd::utf8::encode_utf8;

verus! {

/// Bytes that `urlencoding::encode` leaves as they are: ASCII letters, digits, `-`, `.`, `_`, `~`.
pub open spec fn is_unreserved_byte(b: u8) -> bool {
    ||| 0x30 <= b <= 0x39
    ||| 0x41 <= b <= 0x5a
    ||| 0x61 <= b <= 0x7a
    ||| b == 0x2d
    ||| b == 0x2e
    ||| b == 0x5f
    ||| b == 0x7e
}

/// Upper-case hexadecimal digit for `d < 16`.
pub open spec fn hex_upper(d: u8) -> char {
    if d < 10 {
        (0x30 + d) as char
    } else {
        (0x41 + d - 10) as char
    }
}

/// Lower-case hexadecimal digit for `d < 16`.
pub open spec fn hex_lower(d: u32) -> char {
    if d < 10 {
        (0x30 + d) as char
    } else {
        (0x61 + d - 10) as char
    }
}

/// One byte, percent-encoded.
pub open spec fn percent_encode_byte(b: u8) -> Seq<char> {
    if is_unreserved_byte(b) {
        seq![b as char]
    } else {
        seq!['%', hex_upper(b / 16), hex_upper(b % 16)]
    }
}

/// A byte sequence, percent-encoded byte by byte.
pub open spec fn percent_encode(bytes: Seq<u8>) -> Seq<char>
    decreases bytes.len(),
{
    if bytes.len() == 0 {
        Seq::empty()
    } else {
        percent_encode_byte(bytes[0]) + percent_encode(bytes.drop_first())
    }
}

/// The percent-encoding of the UTF-8 bytes of `s`.
pub open spec fn url_encoded(s: Seq<char>) -> Seq<char> {
    percent_encode(encode_utf8(s))
}

/// Percent-encodes `s` with `urlencoding::encode`.
///
/// Trusted: `urlencoding::encode` percent-encodes every UTF-8 byte of its input except ASCII
/// letters, digits and `-`, `.`, `_`, `~`, with upper-case hexadecimal digits; the contract
/// states exactly that.
#[verifier::external_body]
pub(crate) fn url_encode(s: &str) -> (r: String)
    ensures
        r@ == url_encoded(s@),
{
    urlencoding::encode(s).into_owned()
}

/// The JSON escape of one character, as `serde_json` writes it inside a string literal.
pub open spec fn json_escape_char(c: char) -> Seq<char> {
    let u = c as u32;
    if c == '"' {
        seq!['\\', '"']
    } else if c == '\\' {
        seq!['\\', '\\']
    } else if u == 0x08 {
        seq!['\\', 'b']
    } else if u == 0x0c {
        seq!['\\', 'f']
    } else if c == '\n' {
        seq!['\\', 'n']
    } else if c == '\r' {
        seq!['\\', 'r']
    } else if c == '\t' {
        seq!['\\', 't']
    } else if u < 0x20 {
        seq!['\\', 'u', '0', '0', hex_lower(u / 16), hex_lower(u % 16)]
    } else {
        seq![c]
    }
}

/// The escaped characters of `s`.
pub open spec fn json_escape(s: Seq<char>) -> Seq<char>
    decreases s.len(),
{
    if s.len() == 0 {
        Seq::empty()
    } else {
        json_escape_char(s[0]) + json_escape(s.drop_first())
    }
}

/// `s` as a JSON string literal.
pub open spec fn json_quote(s: Seq<char>) -> Seq<char> {
    seq!['"'] + json_escape(s) + seq!['"']
}

/// Reads percent-encoded text back into bytes, as a URL reader does: `%XY` stands for the byte
/// with the hexadecimal value `XY`, any other character for its own (ASCII) byte.
pub open spec fn percent_decode(e: Seq<char>) -> Seq<u8>
    decreases e.len(),
{
    if e.len() == 0 {
        Seq::empty()
    } else if e[0] == '%' && e.len() >= 3 {
        seq![(hex_value(e[1]) * 16 + hex_value(e[2])) as u8] + percent_decode(e.skip(3))
    } else {
        seq![e[0] as u8] + percent_decode(e.skip(1))
    }
}

/// Reading back the percent-encoding of one byte gives that byte, whatever follows.
proof fn lemma_percent_decode_byte(b: u8, rest: Seq<char>)
    ensures
        percent_decode(percent_encode_byte(b) + rest) == seq![b] + percent_decode(rest),
{
    let e = percent_encode_byte(b) + rest;
    if is_unreserved_byte(b) {
        assert(e.skip(1) =~= rest);
        assert(((b as char) as u8) == b);
    } else {
        assert(e.skip(3) =~= rest);
        assert(hex_value(e[1]) == b / 16);
        assert(hex_value(e[2]) == b % 16);
    }
}

/// Reading back a percent-encoding gives the original bytes.
pub proof fn lemma_percent_decode_encode(bytes: Seq<u8>)
    ensures
        percent_decode(percent_encode(bytes)) == bytes,
    decreases bytes.len(),
{
    if bytes.len() > 0 {
        lemma_percent_decode_encode(bytes.drop_first());
        lemma_percent_decode_byte(bytes[0], percent_encode(bytes.drop_first()));
        assert(seq![bytes[0]] + bytes.drop_first() =~= bytes);
    } else {
        assert(percent_encode(bytes) =~= Seq::<char>::empty());
    }
}

/// Percent-encoding loses nothing: reading `url_encoded(s)` back gives exactly the UTF-8 bytes
/// of `s`, for every text.
pub proof fn law_url_encoded_reads_back(s: Seq<char>)
    ensures
        percent_decode(url_encoded(s)) == encode_utf8(s),
{
    lemma_percent_decode_encode(encode_utf8(s));
}

/// The value of a hexadecimal digit (either case); 0 for any other character.
pub open spec fn hex_value(c: char) -> int {
    if '0' <= c && c <= '9' {
        c as int - 0x30
    } else if 'a' <= c && c <= 'f' {
        c as int - 0x61 + 10
    } else if 'A' <= c && c <= 'F' {
        c as int - 0x41 + 10
    } else {
        0
    }
}

/// The character that a two-character JSON escape `\c` stands for.
pub open spec fn json_short_escape(c: char) -> char {
    if c == 'b' {
        0x08u32 as char
    } else if c == 'f' {
        0x0cu32 as char
    } else if c == 'n' {
        '\n'
    } else if c == 'r' {
        '\r'
    } else if c == 't' {
        '\t'
    } else {
        c
    }
}

/// Reads the characters of a JSON string literal's body as a JSON reader does: `\uXXXX`
/// stands for the character with that code, `\` and another character for the character it
/// escapes, any other character for itself.
pub open spec fn json_unescape(e: Seq<char>) -> Seq<char>
    decreases e.len(),
{
    if e.len() == 0 {
        Seq::empty()
    } else if e[0] == '\\' && e.len() >= 6 && e[1] == 'u' {
        let code = hex_value(e[2]) * 4096 + hex_value(e[3]) * 256 + hex_value(e[4]) * 16 + hex_value(e[5]);
        seq![(code as u32) as char] + json_unescape(e.skip(6))
    } else if e[0] == '\\' && e.len() >= 2 {
        seq![json_short_escape(e[1])] + json_unescape(e.skip(2))
    } else {
        seq![e[0]] + json_unescape(e.skip(1))
    }
}

/// Reading back the escape of one character gives that character, whatever follows.
proof fn lemma_unescape_char(c: char, rest: Seq<char>)
    ensures
        json_unescape(json_escape_char(c) + rest) == seq![c] + json_unescape(rest),
{
    let e = json_escape_char(c) + rest;
    let u = c as u32;
    if c == '"' || c == '\\' || u == 0x08 || u == 0x0c || c == '\n' || c == '\r' || c == '\t' {
        assert(e.skip(2) =~= rest);
        assert(json_short_escape(e[1]) == c);
    } else if u < 0x20 {
        assert(e.skip(6) =~= rest);
        assert(hex_value(e[2]) == 0 && hex_value(e[3]) == 0);
        assert(hex_value(e[4]) == u / 16);
        assert(hex_value(e[5]) == u % 16);
        assert((u as char) == c);
    } else {
        assert(e.skip(1) =~= rest);
    }
}

/// Reading back a JSON escape gives the original characters.
pub proof fn lemma_unescape_escape(s: Seq<char>)
    ensures
        json_unescape(json_escape(s)) == s,
    decreases s.len(),
{
    if s.len() > 0 {
        lemma_unescape_escape(s.drop_first());
        lemma_unescape_char(s[0], json_escape(s.drop_first()));
        assert(seq![s[0]] + s.drop_first() =~= s);
    } else {
        assert(json_escape(s) =~= Seq::<char>::empty());
    }
}

/// A JSON string literal holds its text exactly: it is enclosed in double quotes, and reading
/// its body back gives the text, for every text.
pub proof fn law_json_quote_reads_back(s: Seq<char>)
    ensures
        json_quote(s).len() >= 2,
        json_quote(s)[0] == '"',
        json_quote(s).last() == '"',
        json_unescape(json_quote(s).subrange(1, json_quote(s).len() - 1)) == s,
{
    let q = json_quote(s);
    assert(q.subrange(1, q.len() - 1) =~= json_escape(s));
    lemma_unescape_escape(s);
}

/// Writes `s` as a JSON string with `serde_json::to_string`.
///
/// Trusted: for a string, `serde_json::to_string` writes a double quote, each character with
/// `"`, `\` and the control characters below U+0020 escaped (short forms for backspace, form
/// feed, newline, carriage return and tab, `\u00xx` with lower-case hex for the others), and a
/// closing double quote. The call succeeds on every string: the serializer writes a `str`
/// into a `Vec<u8>`, which takes every write, and only a failing `Serialize` impl or a map
/// with non-string keys makes it fail.
#[verifier::external_body]
pub(crate) fn json_string(s: &str) -> (r: Option<String>)
    ensures
        r is Some,
        r matches Some(v) ==> v@ == json_quote(s@),
{
    serde_json::to_string(s).ok()
}

/// Appends `c` to `s` with `String::push`.
///
/// Trusted: `String::push` appends the given character to the end of the string.
#[verifier::external_body]
pub(crate) fn push_char(s: &mut String, c: char)
    ensures
        final(s)@ == old(s)@.push(c),
{
    s.push(c);
}

/// Appends `t` to `s`.
pub(crate) fn push_str(s: &mut String, t: &str)
    ensures
        final(s)@ == old(s)@ + t@,
{
    s.append(t);
}

} // verus!
