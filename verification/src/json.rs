//! The configuration record's wire format: one JSON object with the
//! two required string fields, the optional password, and the two
//! optional switches, encoded without whitespace and in declaration
//! order. The encoder and the parser are both verified against the
//! same specification, and parsing an encoded record gives the record
//! back.

use vstd::prelude::*;
use vstd::string::StrSliceExecFns;
use crate::config::{VpnConfig, ConfigModel};

verus! {

// ---------------------------------------------------------------
// Escaping of string values
// ---------------------------------------------------------------

/// The lower-case hexadecimal digit for a value below sixteen.
pub open spec fn hex_digit(d: u32) -> char {
    if d == 0 { '0' } else if d == 1 { '1' } else if d == 2 { '2' } else if d == 3 { '3' }
    else if d == 4 { '4' } else if d == 5 { '5' } else if d == 6 { '6' } else if d == 7 { '7' }
    else if d == 8 { '8' } else if d == 9 { '9' } else if d == 10 { 'a' } else if d == 11 { 'b' }
    else if d == 12 { 'c' } else if d == 13 { 'd' } else if d == 14 { 'e' } else { 'f' }
}

/// The value of a hexadecimal digit, or sixteen for any other
/// character.
pub open spec fn hex_val(c: char) -> u32 {
    if c == '0' { 0 } else if c == '1' { 1 } else if c == '2' { 2 } else if c == '3' { 3 }
    else if c == '4' { 4 } else if c == '5' { 5 } else if c == '6' { 6 } else if c == '7' { 7 }
    else if c == '8' { 8 } else if c == '9' { 9 }
    else if c == 'a' { 10 } else if c == 'b' { 11 } else if c == 'c' { 12 }
    else if c == 'd' { 13 } else if c == 'e' { 14 } else if c == 'f' { 15 }
    else if c == 'A' { 10 } else if c == 'B' { 11 } else if c == 'C' { 12 }
    else if c == 'D' { 13 } else if c == 'E' { 14 } else if c == 'F' { 15 }
    else { 16 }
}

/// Whether a character is a hexadecimal digit.
pub open spec fn is_hex(c: char) -> bool {
    hex_val(c) < 16
}

/// A hexadecimal digit reads back as its value.
pub proof fn lemma_hex_digit_val(d: u32)
    requires
        d < 16,
    ensures
        hex_val(hex_digit(d)) == d,
{
}

/// How one character of a string value is written: quote and backslash
/// get a backslash escape, control characters a `\u00` escape, every
/// other character stands as itself.
pub open spec fn escape_char(c: char) -> Seq<char> {
    if c == '"' {
        seq!['\\', '"']
    } else if c == '\\' {
        seq!['\\', '\\']
    } else if (c as u32) < 0x20 {
        seq!['\\', 'u', '0', '0', hex_digit((c as u32) / 16), hex_digit((c as u32) % 16)]
    } else {
        seq![c]
    }
}

/// How a whole string value is written, character by character.
pub open spec fn escape_seq(s: Seq<char>) -> Seq<char>
    decreases s.len(),
{
    if s.len() == 0 {
        Seq::empty()
    } else {
        escape_char(s[0]) + escape_seq(s.drop_first())
    }
}

/// Escaping distributes over appending one character at the end.
pub proof fn lemma_escape_seq_push(s: Seq<char>, c: char)
    ensures
        escape_seq(s.push(c)) == escape_seq(s) + escape_char(c),
    decreases s.len(),
{
    if s.len() == 0 {
        assert(s.push(c) =~= seq![c]);
        assert(s.push(c).drop_first() =~= Seq::<char>::empty());
        assert(escape_seq(s.push(c)) == escape_char(c) + escape_seq(Seq::<char>::empty()));
        assert(escape_seq(Seq::<char>::empty()) == Seq::<char>::empty());
        assert(escape_seq(s) == Seq::<char>::empty());
        assert(escape_seq(s.push(c)) =~= escape_seq(s) + escape_char(c));
    } else {
        assert(s.push(c)[0] == s[0]);
        assert(s.push(c).drop_first() =~= s.drop_first().push(c));
        assert(escape_seq(s.push(c)) == escape_char(s[0]) + escape_seq(s.drop_first().push(c)));
        lemma_escape_seq_push(s.drop_first(), c);
        assert(escape_seq(s) == escape_char(s[0]) + escape_seq(s.drop_first()));
        assert(escape_seq(s.push(c)) =~= escape_seq(s) + escape_char(c));
    }
}

/// A string value between its quotes.
pub open spec fn quoted(s: Seq<char>) -> Seq<char> {
    seq!['"'] + escape_seq(s) + seq!['"']
}

// ---------------------------------------------------------------
// The fixed tokens of the object
// ---------------------------------------------------------------

/// The token `null`.
pub open spec fn null_tok() -> Seq<char> {
    seq!['n', 'u', 'l', 'l']
}

/// The token `true`.
pub open spec fn true_tok() -> Seq<char> {
    seq!['t', 'r', 'u', 'e']
}

/// The token `false`.
pub open spec fn false_tok() -> Seq<char> {
    seq!['f', 'a', 'l', 's', 'e']
}

/// The object opening together with the first key: `{"portal":`.
#[verifier::opaque]
pub open spec fn portal_key() -> Seq<char> {
    seq!['{', '"', 'p', 'o', 'r', 't', 'a', 'l', '"', ':']
}

/// The separator and second key: `,"username":`.
#[verifier::opaque]
pub open spec fn username_key() -> Seq<char> {
    seq![',', '"', 'u', 's', 'e', 'r', 'n', 'a', 'm', 'e', '"', ':']
}

/// The separator and third key: `,"password":`.
#[verifier::opaque]
pub open spec fn password_key() -> Seq<char> {
    seq![',', '"', 'p', 'a', 's', 's', 'w', 'o', 'r', 'd', '"', ':']
}

/// The separator and fourth key: `,"notifications_enabled":`.
#[verifier::opaque]
pub open spec fn notifications_key() -> Seq<char> {
    seq![
        ',', '"', 'n', 'o', 't', 'i', 'f', 'i', 'c', 'a', 't', 'i', 'o', 'n', 's', '_', 'e', 'n',
        'a', 'b', 'l', 'e', 'd', '"', ':',
    ]
}

/// The separator and fifth key: `,"auto_connect":`.
#[verifier::opaque]
pub open spec fn auto_key() -> Seq<char> {
    seq![',', '"', 'a', 'u', 't', 'o', '_', 'c', 'o', 'n', 'n', 'e', 'c', 't', '"', ':']
}

// ---------------------------------------------------------------
// Encoding
// ---------------------------------------------------------------

/// An optional string value: quoted when present, `null` otherwise.
pub open spec fn opt_string_json(o: Option<Seq<char>>) -> Seq<char> {
    match o {
        Some(s) => quoted(s),
        None => null_tok(),
    }
}

/// An optional boolean value: its token when present, `null` otherwise.
pub open spec fn opt_bool_json(o: Option<bool>) -> Seq<char> {
    match o {
        Some(true) => true_tok(),
        Some(false) => false_tok(),
        None => null_tok(),
    }
}

/// The full encoding of a configuration record: every field is
/// written, absent options as `null`.
#[verifier::opaque]
pub open spec fn spec_config_json(m: ConfigModel) -> Seq<char> {
    portal_key() + quoted(m.portal) + username_key() + quoted(m.username) + password_key()
        + opt_string_json(m.password) + notifications_key() + opt_bool_json(
        m.notifications_enabled,
    ) + auto_key() + opt_bool_json(m.auto_connect) + seq!['}']
}

// ---------------------------------------------------------------
// Executable encoder
// ---------------------------------------------------------------

/// Relies on `String::push`: appends the given character to the end of
/// the string.
#[verifier::external_body]
fn push_char(out: &mut String, c: char)
    ensures
        final(out)@ == old(out)@.push(c),
{
    out.push(c);
}

/// Appends every character of a token.
fn push_tok(out: &mut String, tok: &Vec<char>)
    ensures
        final(out)@ == old(out)@ + tok@,
{
    let ghost start = out@;
    let mut i: usize = 0;
    while i < tok.len()
        invariant
            0 <= i <= tok.len(),
            out@ == start + tok@.subrange(0, i as int),
        decreases tok.len() - i,
    {
        push_char(out, tok[i]);
        proof {
            assert(start + tok@.subrange(0, i as int + 1) =~= (start + tok@.subrange(
                0,
                i as int,
            )).push(tok@[i as int]));
        }
        i += 1;
    }
    proof {
        assert(tok@.subrange(0, tok@.len() as int) =~= tok@);
    }
}

/// The lower-case hexadecimal digit for a value below sixteen.
fn hex_digit_exec(d: u32) -> (r: char)
    requires
        d < 16,
    ensures
        r == hex_digit(d),
{
    if d == 0 { '0' } else if d == 1 { '1' } else if d == 2 { '2' } else if d == 3 { '3' }
    else if d == 4 { '4' } else if d == 5 { '5' } else if d == 6 { '6' } else if d == 7 { '7' }
    else if d == 8 { '8' } else if d == 9 { '9' } else if d == 10 { 'a' } else if d == 11 { 'b' }
    else if d == 12 { 'c' } else if d == 13 { 'd' } else if d == 14 { 'e' } else { 'f' }
}

/// Appends one string value in its escaped form.
fn push_escaped(out: &mut String, s: &str)
    ensures
        final(out)@ == old(out)@ + escape_seq(s@),
{
    let ghost start = out@;
    let n = s.unicode_len();
    let mut i: usize = 0;
    while i < n
        invariant
            s@.len() == n,
            0 <= i <= n,
            out@ == start + escape_seq(s@.subrange(0, i as int)),
        decreases n - i,
    {
        let c = s.get_char(i);
        if c == '"' {
            push_char(out, '\\');
            push_char(out, '"');
        } else if c == '\\' {
            push_char(out, '\\');
            push_char(out, '\\');
        } else if (c as u32) < 0x20 {
            push_char(out, '\\');
            push_char(out, 'u');
            push_char(out, '0');
            push_char(out, '0');
            push_char(out, hex_digit_exec((c as u32) / 16));
            push_char(out, hex_digit_exec((c as u32) % 16));
        } else {
            push_char(out, c);
        }
        proof {
            let pre = s@.subrange(0, i as int);
            assert(s@.subrange(0, i as int + 1) =~= pre.push(s@[i as int]));
            lemma_escape_seq_push(pre, s@[i as int]);
            assert(out@ =~= start + escape_seq(s@.subrange(0, i as int + 1)));
        }
        i += 1;
    }
    proof {
        assert(s@.subrange(0, n as int) =~= s@);
    }
}

/// Appends one string value with its quotes.
fn push_quoted(out: &mut String, s: &str)
    ensures
        final(out)@ == old(out)@ + quoted(s@),
{
    push_char(out, '"');
    push_escaped(out, s);
    push_char(out, '"');
    proof {
        assert(final(out)@ =~= old(out)@ + quoted(s@));
    }
}

/// The token `null` as characters.
fn null_chars() -> (r: Vec<char>)
    ensures
        r@ == null_tok(),
{
    let r = vec!['n', 'u', 'l', 'l'];
    proof {
        assert(r@ =~= null_tok());
    }
    r
}

/// Appends one optional boolean value.
fn push_opt_bool(out: &mut String, b: &Option<bool>)
    ensures
        final(out)@ == old(out)@ + opt_bool_json(*b),
{
    match b {
        Some(true) => {
            let tok = vec!['t', 'r', 'u', 'e'];
            proof {
                assert(tok@ =~= true_tok());
            }
            push_tok(out, &tok);
        },
        Some(false) => {
            let tok = vec!['f', 'a', 'l', 's', 'e'];
            proof {
                assert(tok@ =~= false_tok());
            }
            push_tok(out, &tok);
        },
        None => {
            let tok = null_chars();
            push_tok(out, &tok);
        },
    }
}

/// Encodes a configuration record as the JSON text that is written to
/// disk: all five fields, in declaration order, without whitespace.
pub fn encode_config(c: &VpnConfig) -> (r: String)
    ensures
        r@ == spec_config_json(c@),
{
    let mut out = String::new();
    let k1 = vec!['{', '"', 'p', 'o', 'r', 't', 'a', 'l', '"', ':'];
    proof {
        reveal(portal_key);
        assert(k1@ =~= portal_key());
    }
    push_tok(&mut out, &k1);
    push_quoted(&mut out, c.portal.as_str());
    let k2 = vec![',', '"', 'u', 's', 'e', 'r', 'n', 'a', 'm', 'e', '"', ':'];
    proof {
        reveal(username_key);
        assert(k2@ =~= username_key());
    }
    push_tok(&mut out, &k2);
    push_quoted(&mut out, c.username.as_str());
    let k3 = vec![',', '"', 'p', 'a', 's', 's', 'w', 'o', 'r', 'd', '"', ':'];
    proof {
        reveal(password_key);
        assert(k3@ =~= password_key());
    }
    push_tok(&mut out, &k3);
    match &c.password {
        Some(p) => push_quoted(&mut out, p.as_str()),
        None => {
            let tok = null_chars();
            push_tok(&mut out, &tok);
        },
    }
    let k4 = vec![
        ',', '"', 'n', 'o', 't', 'i', 'f', 'i', 'c', 'a', 't', 'i', 'o', 'n', 's', '_', 'e', 'n',
        'a', 'b', 'l', 'e', 'd', '"', ':',
    ];
    proof {
        reveal(notifications_key);
        assert(k4@ =~= notifications_key());
    }
    push_tok(&mut out, &k4);
    push_opt_bool(&mut out, &c.notifications_enabled);
    let k5 = vec![',', '"', 'a', 'u', 't', 'o', '_', 'c', 'o', 'n', 'n', 'e', 'c', 't', '"', ':'];
    proof {
        reveal(auto_key);
        assert(k5@ =~= auto_key());
    }
    push_tok(&mut out, &k5);
    push_opt_bool(&mut out, &c.auto_connect);
    push_char(&mut out, '}');
    proof {
        reveal(spec_config_json);
        assert(out@ =~= spec_config_json(c@));
    }
    out
}

// ---------------------------------------------------------------
// Parsing: specification
// ---------------------------------------------------------------

/// Whether the token stands in `s` at position `i`.
pub open spec fn tok_at(s: Seq<char>, i: int, tok: Seq<char>) -> bool {
    0 <= i && i + tok.len() <= s.len() && s.subrange(i, i + tok.len()) == tok
}

/// The character a short escape stands for.
pub open spec fn unescape_short(e: char) -> Option<char> {
    if e == '"' { Some('"') }
    else if e == '\\' { Some('\\') }
    else if e == '/' { Some('/') }
    else if e == 'b' { Some('\u{8}') }
    else if e == 'f' { Some('\u{c}') }
    else if e == 'n' { Some('\n') }
    else if e == 'r' { Some('\r') }
    else if e == 't' { Some('\t') }
    else { None }
}

/// Scans the body of a string value from position `i` (just past the
/// opening quote) to its closing quote: the decoded characters and the
/// position after the closing quote, or nothing when the text is not a
/// well-formed string body. Escapes accepted are the short ones and
/// `\u00` followed by two hexadecimal digits; unescaped control
/// characters are refused.
pub open spec fn sp_scan_string(s: Seq<char>, i: int) -> Option<(Seq<char>, int)>
    decreases s.len() - i,
{
    if i < 0 || i >= s.len() {
        None
    } else if s[i] == '"' {
        Some((Seq::empty(), i + 1))
    } else if s[i] == '\\' {
        if i + 1 >= s.len() {
            None
        } else if s[i + 1] == 'u' {
            if i + 6 <= s.len() && s[i + 2] == '0' && s[i + 3] == '0' && is_hex(s[i + 4]) && is_hex(
                s[i + 5],
            ) {
                let code = (hex_val(s[i + 4]) * 16 + hex_val(s[i + 5])) as u32;
                match sp_scan_string(s, i + 6) {
                    Some((t, j)) => Some((seq![code as char] + t, j)),
                    None => None,
                }
            } else {
                None
            }
        } else {
            match unescape_short(s[i + 1]) {
                Some(c) => match sp_scan_string(s, i + 2) {
                    Some((t, j)) => Some((seq![c] + t, j)),
                    None => None,
                },
                None => None,
            }
        }
    } else if (s[i] as u32) < 0x20 {
        None
    } else {
        match sp_scan_string(s, i + 1) {
            Some((t, j)) => Some((seq![s[i]] + t, j)),
            None => None,
        }
    }
}

/// A whole string value at position `i`: opening quote, body, closing
/// quote.
pub open spec fn sp_string_at(s: Seq<char>, i: int) -> Option<(Seq<char>, int)> {
    if 0 <= i && i < s.len() && s[i] == '"' {
        sp_scan_string(s, i + 1)
    } else {
        None
    }
}

/// A string-or-null value at position `i`.
pub open spec fn sp_opt_string_at(s: Seq<char>, i: int) -> Option<(Option<Seq<char>>, int)> {
    if tok_at(s, i, null_tok()) {
        Some((None, i + 4))
    } else {
        match sp_string_at(s, i) {
            Some((v, j)) => Some((Some(v), j)),
            None => None,
        }
    }
}

/// A boolean-or-null value at position `i`.
pub open spec fn sp_opt_bool_at(s: Seq<char>, i: int) -> Option<(Option<bool>, int)> {
    if tok_at(s, i, null_tok()) {
        Some((None, i + 4))
    } else if tok_at(s, i, true_tok()) {
        Some((Some(true), i + 4))
    } else if tok_at(s, i, false_tok()) {
        Some((Some(false), i + 5))
    } else {
        None
    }
}

/// An optional string field: when its key stands at `i` the value
/// follows, otherwise the field is absent and the position unchanged.
pub open spec fn sp_str_field(s: Seq<char>, i: int, key: Seq<char>) -> Option<
    (Option<Seq<char>>, int),
> {
    if tok_at(s, i, key) {
        sp_opt_string_at(s, i + key.len())
    } else {
        Some((None, i))
    }
}

/// An optional boolean field, as [`sp_str_field`].
pub open spec fn sp_bool_field(s: Seq<char>, i: int, key: Seq<char>) -> Option<
    (Option<bool>, int),
> {
    if tok_at(s, i, key) {
        sp_opt_bool_at(s, i + key.len())
    } else {
        Some((None, i))
    }
}

/// Parses a whole configuration object: the two required string
/// fields, then each optional field in declaration order when its key
/// is present, then the closing brace and the end of the text.
///
/// The grammar is deliberately exactly the shape [`spec_config_json`]
/// writes (optional fields may also be left out): no whitespace, no
/// reordered members, no unknown members. The file is written only by
/// the save path, so everything the system itself persists parses —
/// that is the proved round trip — while a hand-edited or foreign
/// file outside this shape surfaces as a parse failure, which the UI
/// treats as no configuration.
#[verifier::opaque]
pub open spec fn sp_parse_config(s: Seq<char>) -> Option<ConfigModel> {
    if !tok_at(s, 0, portal_key()) {
        None
    } else {
        match sp_string_at(s, portal_key().len() as int) {
            None => None,
            Some((portal, i1)) => if !tok_at(s, i1, username_key()) {
                None
            } else {
                match sp_string_at(s, i1 + username_key().len()) {
                    None => None,
                    Some((username, i2)) => match sp_str_field(s, i2, password_key()) {
                        None => None,
                        Some((password, i3)) => match sp_bool_field(s, i3, notifications_key()) {
                            None => None,
                            Some((notifications_enabled, i4)) => match sp_bool_field(
                                s,
                                i4,
                                auto_key(),
                            ) {
                                None => None,
                                Some((auto_connect, i5)) => if i5 + 1 == s.len() && s[i5] == '}' {
                                    Some(
                                        ConfigModel {
                                            portal,
                                            username,
                                            password,
                                            notifications_enabled,
                                            auto_connect,
                                        },
                                    )
                                } else {
                                    None
                                },
                            },
                        },
                    },
                }
            },
        }
    }
}

// ---------------------------------------------------------------
// Executable parser
// ---------------------------------------------------------------

/// Relies on `char::from_u32`: gives back the character with the given
/// code, and gives one for every code below the surrogate range or
/// between it and the Unicode maximum.
#[verifier::external_body]
fn char_from_code(code: u32) -> (r: Option<char>)
    ensures
        r is Some <==> (code < 0xD800 || (0xDFFF < code && code <= 0x10FFFF)),
        r is Some ==> r->0 as u32 == code,
{
    char::from_u32(code)
}

/// The value of a hexadecimal digit, or sixteen.
fn hex_val_exec(c: char) -> (r: u32)
    ensures
        r == hex_val(c),
{
    if c == '0' { 0 } else if c == '1' { 1 } else if c == '2' { 2 } else if c == '3' { 3 }
    else if c == '4' { 4 } else if c == '5' { 5 } else if c == '6' { 6 } else if c == '7' { 7 }
    else if c == '8' { 8 } else if c == '9' { 9 }
    else if c == 'a' { 10 } else if c == 'b' { 11 } else if c == 'c' { 12 }
    else if c == 'd' { 13 } else if c == 'e' { 14 } else if c == 'f' { 15 }
    else if c == 'A' { 10 } else if c == 'B' { 11 } else if c == 'C' { 12 }
    else if c == 'D' { 13 } else if c == 'E' { 14 } else if c == 'F' { 15 }
    else { 16 }
}

/// The character a short escape stands for.
fn unescape_short_exec(e: char) -> (r: Option<char>)
    ensures
        r == unescape_short(e),
{
    if e == '"' { Some('"') }
    else if e == '\\' { Some('\\') }
    else if e == '/' { Some('/') }
    else if e == 'b' { Some('\u{8}') }
    else if e == 'f' { Some('\u{c}') }
    else if e == 'n' { Some('\n') }
    else if e == 'r' { Some('\r') }
    else if e == 't' { Some('\t') }
    else { None }
}

/// The characters of a string slice, in order.
fn str_chars(s: &str) -> (r: Vec<char>)
    ensures
        r@ == s@,
{
    let n = s.unicode_len();
    let mut r: Vec<char> = Vec::new();
    let mut i: usize = 0;
    while i < n
        invariant
            s@.len() == n,
            0 <= i <= n,
            r@ == s@.subrange(0, i as int),
        decreases n - i,
    {
        r.push(s.get_char(i));
        proof {
            assert(s@.subrange(0, i as int + 1) =~= s@.subrange(0, i as int).push(s@[i as int]));
        }
        i += 1;
    }
    proof {
        assert(s@.subrange(0, n as int) =~= s@);
    }
    r
}

/// A string made of the given characters, in order.
fn chars_to_string(v: &Vec<char>) -> (r: String)
    ensures
        r@ == v@,
{
    let mut r = String::new();
    let mut i: usize = 0;
    while i < v.len()
        invariant
            0 <= i <= v@.len(),
            r@ == v@.subrange(0, i as int),
        decreases v.len() - i,
    {
        push_char(&mut r, v[i]);
        proof {
            assert(v@.subrange(0, i as int + 1) =~= v@.subrange(0, i as int).push(v@[i as int]));
        }
        i += 1;
    }
    proof {
        assert(v@.subrange(0, v@.len() as int) =~= v@);
    }
    r
}

/// Whether the token stands in `v` at position `i`.
fn match_tok(v: &Vec<char>, i: usize, tok: &Vec<char>) -> (r: bool)
    ensures
        r == tok_at(v@, i as int, tok@),
{
    let n = v.len();
    let m = tok.len();
    if i > n || n - i < m {
        return false;
    }
    let mut j: usize = 0;
    while j < m
        invariant
            n == v@.len(),
            m == tok@.len(),
            i + m <= n,
            0 <= j <= m,
            forall|k: int| 0 <= k < j ==> v@[i + k] == tok@[k],
        decreases m - j,
    {
        if v[i + j] != tok[j] {
            proof {
                assert(!tok_at(v@, i as int, tok@)) by {
                    if v@.subrange(i as int, i as int + tok@.len() as int) == tok@ {
                        assert(v@.subrange(i as int, i as int + tok@.len() as int)[j as int]
                            == v@[i as int + j as int]);
                    }
                }
            }
            return false;
        }
        j += 1;
    }
    proof {
        assert(v@.subrange(i as int, i as int + tok@.len() as int) =~= tok@);
    }
    true
}

/// Advances a position by a length that a matched token has shown to
/// fit inside `v`.
fn advance_past(v: &Vec<char>, i: usize, len: usize) -> (r: usize)
    requires
        i + len <= v@.len(),
    ensures
        r == i + len,
{
    let n = v.len();
    proof {
        assert(i + len <= n);
    }
    i + len
}

/// Scans one string body, mirroring [`sp_scan_string`].
fn scan_string(v: &Vec<char>, i: usize) -> (r: Option<(Vec<char>, usize)>)
    ensures
        match r {
            Some(p) => sp_scan_string(v@, i as int) == Some((p.0@, p.1 as int)) && i < p.1
                <= v@.len(),
            None => sp_scan_string(v@, i as int) is None,
        },
    decreases v@.len() - i,
{
    if i >= v.len() {
        return None;
    }
    let c = v[i];
    if c == '"' {
        Some((Vec::new(), i + 1))
    } else if c == '\\' {
        if v.len() - i < 2 {
            return None;
        }
        let e = v[i + 1];
        if e == 'u' {
            if v.len() - i < 6 {
                return None;
            }
            let hi = hex_val_exec(v[i + 4]);
            let lo = hex_val_exec(v[i + 5]);
            if v[i + 2] == '0' && v[i + 3] == '0' && hi < 16 && lo < 16 {
                let code = hi * 16 + lo;
                match char_from_code(code) {
                    Some(ch) => match scan_string(v, i + 6) {
                        Some((mut t, j)) => {
                            t.insert(0, ch);
                            proof {
                                vstd::utf8::char_u32_cast(ch, code);
                                assert(t@ =~= seq![code as char] + t@.subrange(1, t@.len() as int));
                            }
                            Some((t, j))
                        },
                        None => None,
                    },
                    None => {
                        proof {
                            assert(false);
                        }
                        None
                    },
                }
            } else {
                None
            }
        } else {
            match unescape_short_exec(e) {
                Some(u) => match scan_string(v, i + 2) {
                    Some((mut t, j)) => {
                        t.insert(0, u);
                        proof {
                            assert(t@ =~= seq![u] + t@.subrange(1, t@.len() as int));
                        }
                        Some((t, j))
                    },
                    None => None,
                },
                None => None,
            }
        }
    } else if (c as u32) < 0x20 {
        None
    } else {
        match scan_string(v, i + 1) {
            Some((mut t, j)) => {
                t.insert(0, c);
                proof {
                    assert(t@ =~= seq![c] + t@.subrange(1, t@.len() as int));
                }
                Some((t, j))
            },
            None => None,
        }
    }
}

/// Parses one whole string value, mirroring [`sp_string_at`].
fn string_at(v: &Vec<char>, i: usize) -> (r: Option<(Vec<char>, usize)>)
    ensures
        match r {
            Some(p) => sp_string_at(v@, i as int) == Some((p.0@, p.1 as int)) && i < p.1
                <= v@.len(),
            None => sp_string_at(v@, i as int) is None,
        },
{
    if i < v.len() && v[i] == '"' {
        scan_string(v, i + 1)
    } else {
        None
    }
}

/// The optional value of a string field, for the ensures of the
/// executable field parsers.
pub open spec fn opt_chars_view(o: Option<Vec<char>>) -> Option<Seq<char>> {
    match o {
        Some(v) => Some(v@),
        None => None,
    }
}

/// Parses one string-or-null value, mirroring [`sp_opt_string_at`].
fn opt_string_at(v: &Vec<char>, i: usize) -> (r: Option<(Option<Vec<char>>, usize)>)
    requires
        i <= v@.len(),
    ensures
        match r {
            Some(p) => sp_opt_string_at(v@, i as int) == Some((opt_chars_view(p.0), p.1 as int))
                && i <= p.1 <= v@.len(),
            None => sp_opt_string_at(v@, i as int) is None,
        },
{
    let nt = null_chars();
    if match_tok(v, i, &nt) {
        Some((None, advance_past(v, i, 4)))
    } else {
        match string_at(v, i) {
            Some((t, j)) => Some((Some(t), j)),
            None => None,
        }
    }
}

/// Parses one boolean-or-null value, mirroring [`sp_opt_bool_at`].
fn opt_bool_at(v: &Vec<char>, i: usize) -> (r: Option<(Option<bool>, usize)>)
    requires
        i <= v@.len(),
    ensures
        match r {
            Some(p) => sp_opt_bool_at(v@, i as int) == Some((p.0, p.1 as int)) && i <= p.1
                <= v@.len(),
            None => sp_opt_bool_at(v@, i as int) is None,
        },
{
    let nt = null_chars();
    if match_tok(v, i, &nt) {
        return Some((None, advance_past(v, i, 4)));
    }
    let tt = vec!['t', 'r', 'u', 'e'];
    proof {
        assert(tt@ =~= true_tok());
    }
    if match_tok(v, i, &tt) {
        return Some((Some(true), advance_past(v, i, 4)));
    }
    let ft = vec!['f', 'a', 'l', 's', 'e'];
    proof {
        assert(ft@ =~= false_tok());
    }
    if match_tok(v, i, &ft) {
        return Some((Some(false), advance_past(v, i, 5)));
    }
    None
}

/// Parses one optional string field, mirroring [`sp_str_field`].
fn str_field(v: &Vec<char>, i: usize, key: &Vec<char>) -> (r: Option<(Option<Vec<char>>, usize)>)
    requires
        i <= v@.len(),
    ensures
        match r {
            Some(p) => sp_str_field(v@, i as int, key@) == Some(
                (opt_chars_view(p.0), p.1 as int),
            ) && i <= p.1 <= v@.len(),
            None => sp_str_field(v@, i as int, key@) is None,
        },
{
    if match_tok(v, i, key) {
        opt_string_at(v, advance_past(v, i, key.len()))
    } else {
        Some((None, i))
    }
}

/// Parses one optional boolean field, mirroring [`sp_bool_field`].
fn bool_field(v: &Vec<char>, i: usize, key: &Vec<char>) -> (r: Option<(Option<bool>, usize)>)
    requires
        i <= v@.len(),
    ensures
        match r {
            Some(p) => sp_bool_field(v@, i as int, key@) == Some((p.0, p.1 as int)) && i <= p.1
                <= v@.len(),
            None => sp_bool_field(v@, i as int, key@) is None,
        },
{
    if match_tok(v, i, key) {
        opt_bool_at(v, advance_past(v, i, key.len()))
    } else {
        Some((None, i))
    }
}

/// Parses a configuration record out of its characters.
pub fn parse_config_chars(v: &Vec<char>) -> (r: Option<VpnConfig>)
    ensures
        match r {
            Some(c) => sp_parse_config(v@) == Some(c@),
            None => sp_parse_config(v@) is None,
        },
{
    proof {
        reveal(sp_parse_config);
    }
    let k1 = vec!['{', '"', 'p', 'o', 'r', 't', 'a', 'l', '"', ':'];
    proof {
        reveal(portal_key);
        assert(k1@ =~= portal_key());
    }
    if !match_tok(v, 0, &k1) {
        return None;
    }
    let (portal_chars, i1) = match string_at(v, k1.len()) {
        Some(x) => x,
        None => {
            return None;
        },
    };
    let k2 = vec![',', '"', 'u', 's', 'e', 'r', 'n', 'a', 'm', 'e', '"', ':'];
    proof {
        reveal(username_key);
        assert(k2@ =~= username_key());
    }
    if !match_tok(v, i1, &k2) {
        return None;
    }
    let (user_chars, i2) = match string_at(v, advance_past(v, i1, k2.len())) {
        Some(x) => x,
        None => {
            return None;
        },
    };
    let k3 = vec![',', '"', 'p', 'a', 's', 's', 'w', 'o', 'r', 'd', '"', ':'];
    proof {
        reveal(password_key);
        assert(k3@ =~= password_key());
    }
    let (password_chars, i3) = match str_field(v, i2, &k3) {
        Some(x) => x,
        None => {
            return None;
        },
    };
    let k4 = vec![
        ',', '"', 'n', 'o', 't', 'i', 'f', 'i', 'c', 'a', 't', 'i', 'o', 'n', 's', '_', 'e', 'n',
        'a', 'b', 'l', 'e', 'd', '"', ':',
    ];
    proof {
        reveal(notifications_key);
        assert(k4@ =~= notifications_key());
    }
    let (notifications_enabled, i4) = match bool_field(v, i3, &k4) {
        Some(x) => x,
        None => {
            return None;
        },
    };
    let k5 = vec![',', '"', 'a', 'u', 't', 'o', '_', 'c', 'o', 'n', 'n', 'e', 'c', 't', '"', ':'];
    proof {
        reveal(auto_key);
        assert(k5@ =~= auto_key());
    }
    let (auto_connect, i5) = match bool_field(v, i4, &k5) {
        Some(x) => x,
        None => {
            return None;
        },
    };
    if i5 < v.len() && i5 + 1 == v.len() && {
        let close = v[i5];
        close == '}'
    } {
        let password = match password_chars {
            Some(pc) => Some(chars_to_string(&pc)),
            None => None,
        };
        let c = VpnConfig {
            portal: chars_to_string(&portal_chars),
            username: chars_to_string(&user_chars),
            password,
            notifications_enabled,
            auto_connect,
        };
        proof {
            assert(sp_parse_config(v@) == Some(c@));
        }
        Some(c)
    } else {
        None
    }
}

// ---------------------------------------------------------------
// The round trip: parsing an encoding gives the record back
// ---------------------------------------------------------------

/// A subrange known to be a concatenation splits at the boundary.
proof fn lemma_split_tok(s: Seq<char>, i: int, j: int, a: Seq<char>, b: Seq<char>)
    requires
        0 <= i <= j <= s.len(),
        s.subrange(i, j) == a + b,
    ensures
        s.subrange(i, i + a.len()) == a,
        s.subrange(i + a.len(), j) == b,
{
    assert(s.subrange(i, j).len() == j - i);
    assert((a + b).len() == a.len() + b.len());
    assert(j - i == a.len() + b.len());
    assert forall|k: int| 0 <= k < a.len() implies s.subrange(i, i + a.len())[k] == a[k] by {
        assert(s.subrange(i, j)[k] == (a + b)[k]);
        assert(s.subrange(i, j)[k] == s[i + k]);
        assert(s.subrange(i, i + a.len())[k] == s[i + k]);
    }
    assert(s.subrange(i, i + a.len()) =~= a);
    assert forall|k: int| 0 <= k < b.len() implies s.subrange(i + a.len(), j)[k] == b[k] by {
        assert(s.subrange(i, j)[a.len() + k] == (a + b)[a.len() + k]);
        assert(s.subrange(i, j)[a.len() + k] == s[i + a.len() + k]);
        assert(s.subrange(i + a.len(), j)[k] == s[i + a.len() + k]);
    }
    assert(s.subrange(i + a.len(), j) =~= b);
}

/// Scanning the escaped form of a string value, up to its closing
/// quote, gives the value back.
proof fn lemma_scan_escaped(p: Seq<char>, s: Seq<char>, i: int)
    requires
        0 <= i,
        i + escape_seq(p).len() + 1 <= s.len(),
        s.subrange(i, i + escape_seq(p).len() + 1) == escape_seq(p) + seq!['"'],
    ensures
        sp_scan_string(s, i) == Some((p, i + escape_seq(p).len() + 1)),
    decreases p.len(),
{
    let e = escape_seq(p);
    let end = i + e.len() + 1;
    if p.len() == 0 {
        assert(e == Seq::<char>::empty());
        assert(e + seq!['"'] =~= seq!['"']);
        assert(s.subrange(i, end)[0] == s[i]);
        assert(s[i] == '"');
        assert(p =~= Seq::<char>::empty());
    } else {
        let c = p[0];
        let ec = escape_char(c);
        let rest = p.drop_first();
        assert(e == ec + escape_seq(rest));
        assert(e + seq!['"'] =~= ec + (escape_seq(rest) + seq!['"']));
        lemma_split_tok(s, i, end, ec, escape_seq(rest) + seq!['"']);
        let i2 = i + ec.len();
        assert forall|k: int| 0 <= k < ec.len() implies s[i + k] == ec[k] by {
            assert(s.subrange(i, i + ec.len())[k] == s[i + k]);
        }
        lemma_scan_escaped(rest, s, i2);
        if c == '"' {
            assert(s[i] == '\\' && s[i + 1] == '"');
            assert(unescape_short(s[i + 1]) == Some('"'));
            assert(seq![c] + rest =~= p);
        } else if c == '\\' {
            assert(s[i] == '\\' && s[i + 1] == '\\');
            assert(unescape_short(s[i + 1]) == Some('\\'));
            assert(seq![c] + rest =~= p);
        } else if (c as u32) < 0x20 {
            let hi = (c as u32) / 16;
            let lo = (c as u32) % 16;
            assert(s[i] == '\\' && s[i + 1] == 'u' && s[i + 2] == '0' && s[i + 3] == '0');
            assert(s[i + 4] == hex_digit(hi) && s[i + 5] == hex_digit(lo));
            lemma_hex_digit_val(hi);
            lemma_hex_digit_val(lo);
            assert(is_hex(s[i + 4]) && is_hex(s[i + 5]));
            let code = (hex_val(s[i + 4]) * 16 + hex_val(s[i + 5])) as u32;
            assert(code == c as u32);
            vstd::utf8::char_u32_cast(c, code);
            assert((code as char) == c);
            assert(seq![c] + rest =~= p);
        } else {
            assert(ec == seq![c]);
            assert(s[i + 0] == ec[0]);
            assert(s[i] == c);
            assert(seq![c] + rest =~= p);
        }
    }
}

/// Parsing the quoted form of a string value gives the value back.
proof fn lemma_string_at_quoted(p: Seq<char>, s: Seq<char>, i: int)
    requires
        0 <= i,
        i + quoted(p).len() <= s.len(),
        s.subrange(i, i + quoted(p).len()) == quoted(p),
    ensures
        sp_string_at(s, i) == Some((p, i + quoted(p).len())),
{
    let e = escape_seq(p);
    let end = i + quoted(p).len();
    assert(quoted(p) =~= seq!['"'] + (e + seq!['"']));
    lemma_split_tok(s, i, end, seq!['"'], e + seq!['"']);
    assert(s.subrange(i, i + 1)[0] == s[i]);
    assert(s[i] == '"');
    lemma_scan_escaped(p, s, i + 1);
}

/// Parsing the encoding of an optional string value gives it back.
proof fn lemma_opt_string_at_json(o: Option<Seq<char>>, s: Seq<char>, i: int)
    requires
        0 <= i,
        i + opt_string_json(o).len() <= s.len(),
        s.subrange(i, i + opt_string_json(o).len()) == opt_string_json(o),
    ensures
        sp_opt_string_at(s, i) == Some((o, i + opt_string_json(o).len())),
{
    match o {
        None => {
            assert(tok_at(s, i, null_tok()));
        },
        Some(p) => {
            assert(quoted(p)[0] == '"');
            assert(s.subrange(i, i + quoted(p).len())[0] == s[i]);
            assert(s[i] == '"');
            assert(!tok_at(s, i, null_tok())) by {
                if tok_at(s, i, null_tok()) {
                    assert(s.subrange(i, i + 4)[0] == s[i]);
                }
            }
            lemma_string_at_quoted(p, s, i);
        },
    }
}

/// Parsing the encoding of an optional boolean value gives it back.
proof fn lemma_opt_bool_at_json(o: Option<bool>, s: Seq<char>, i: int)
    requires
        0 <= i,
        i + opt_bool_json(o).len() <= s.len(),
        s.subrange(i, i + opt_bool_json(o).len()) == opt_bool_json(o),
    ensures
        sp_opt_bool_at(s, i) == Some((o, i + opt_bool_json(o).len())),
{
    let v = opt_bool_json(o);
    assert(s.subrange(i, i + v.len())[0] == s[i]);
    match o {
        None => {
            assert(tok_at(s, i, null_tok()));
        },
        Some(true) => {
            assert(s[i] == 't');
            assert(!tok_at(s, i, null_tok())) by {
                if tok_at(s, i, null_tok()) {
                    assert(s.subrange(i, i + 4)[0] == s[i]);
                }
            }
            assert(tok_at(s, i, true_tok()));
        },
        Some(false) => {
            assert(s[i] == 'f');
            assert(!tok_at(s, i, null_tok())) by {
                if tok_at(s, i, null_tok()) {
                    assert(s.subrange(i, i + 4)[0] == s[i]);
                }
            }
            assert(!tok_at(s, i, true_tok())) by {
                if tok_at(s, i, true_tok()) {
                    assert(s.subrange(i, i + 4)[0] == s[i]);
                }
            }
            assert(tok_at(s, i, false_tok()));
        },
    }
}

/// Evaluates the object parser once each field is known to parse.
proof fn lemma_parse_eval(
    s: Seq<char>,
    m: ConfigModel,
    p1: int,
    p2: int,
    p3: int,
    p4: int,
    p5: int,
)
    requires
        tok_at(s, 0, portal_key()),
        sp_string_at(s, portal_key().len() as int) == Some((m.portal, p1)),
        tok_at(s, p1, username_key()),
        sp_string_at(s, p1 + username_key().len()) == Some((m.username, p2)),
        tok_at(s, p2, password_key()),
        sp_opt_string_at(s, p2 + password_key().len()) == Some((m.password, p3)),
        tok_at(s, p3, notifications_key()),
        sp_opt_bool_at(s, p3 + notifications_key().len()) == Some((m.notifications_enabled, p4)),
        tok_at(s, p4, auto_key()),
        sp_opt_bool_at(s, p4 + auto_key().len()) == Some((m.auto_connect, p5)),
        p5 + 1 == s.len(),
        0 <= p5 < s.len(),
        s[p5] == '}',
    ensures
        sp_parse_config(s) == Some(m),
{
    reveal(sp_parse_config);
    assert(sp_str_field(s, p2, password_key()) == Some((m.password, p3)));
    assert(sp_bool_field(s, p3, notifications_key()) == Some((m.notifications_enabled, p4)));
    assert(sp_bool_field(s, p4, auto_key()) == Some((m.auto_connect, p5)));
    assert(ConfigModel {
        portal: m.portal,
        username: m.username,
        password: m.password,
        notifications_enabled: m.notifications_enabled,
        auto_connect: m.auto_connect,
    } =~= m);
}

/// The positions after each value of an encoded record.
pub open spec fn rt_pos1(m: ConfigModel) -> int {
    portal_key().len() + quoted(m.portal).len() as int
}

/// The position after the username value of an encoded record.
pub open spec fn rt_pos2(m: ConfigModel) -> int {
    rt_pos1(m) + username_key().len() + quoted(m.username).len() as int
}

/// The position after the password value of an encoded record.
pub open spec fn rt_pos3(m: ConfigModel) -> int {
    rt_pos2(m) + password_key().len() + opt_string_json(m.password).len() as int
}

/// The position after the notification switch of an encoded record.
pub open spec fn rt_pos4(m: ConfigModel) -> int {
    rt_pos3(m) + notifications_key().len() + opt_bool_json(m.notifications_enabled).len() as int
}

/// The position after the auto-connect switch of an encoded record.
pub open spec fn rt_pos5(m: ConfigModel) -> int {
    rt_pos4(m) + auto_key().len() + opt_bool_json(m.auto_connect).len() as int
}

/// Every field of an encoded record parses, each at its position.
proof fn lemma_round_trip_splits(m: ConfigModel)
    ensures
        spec_config_json(m).len() == rt_pos5(m) + 1,
        spec_config_json(m).subrange(0, portal_key().len() as int) == portal_key(),
        spec_config_json(m).subrange(portal_key().len() as int, rt_pos1(m)) == quoted(m.portal),
        spec_config_json(m).subrange(rt_pos1(m), rt_pos1(m) + username_key().len())
            == username_key(),
        spec_config_json(m).subrange(rt_pos1(m) + username_key().len(), rt_pos2(m)) == quoted(
            m.username,
        ),
        spec_config_json(m).subrange(rt_pos2(m), rt_pos2(m) + password_key().len())
            == password_key(),
        spec_config_json(m).subrange(rt_pos2(m) + password_key().len(), rt_pos3(m))
            == opt_string_json(m.password),
        spec_config_json(m).subrange(rt_pos3(m), rt_pos3(m) + notifications_key().len())
            == notifications_key(),
        spec_config_json(m).subrange(rt_pos3(m) + notifications_key().len(), rt_pos4(m))
            == opt_bool_json(m.notifications_enabled),
        spec_config_json(m).subrange(rt_pos4(m), rt_pos4(m) + auto_key().len()) == auto_key(),
        spec_config_json(m).subrange(rt_pos4(m) + auto_key().len(), rt_pos5(m)) == opt_bool_json(
            m.auto_connect,
        ),
        spec_config_json(m)[rt_pos5(m)] == '}',
{
    let s = spec_config_json(m);
    let q1 = quoted(m.portal);
    let q2 = quoted(m.username);
    let v3 = opt_string_json(m.password);
    let v4 = opt_bool_json(m.notifications_enabled);
    let v5 = opt_bool_json(m.auto_connect);
    let x0 = portal_key();
    let x1 = x0 + q1;
    let x2 = x1 + username_key();
    let x3 = x2 + q2;
    let x4 = x3 + password_key();
    let x5 = x4 + v3;
    let x6 = x5 + notifications_key();
    let x7 = x6 + v4;
    let x8 = x7 + auto_key();
    let x9 = x8 + v5;
    assert(s == x9 + seq!['}']) by {
        reveal(spec_config_json);
    }
    let len = s.len() as int;
    let a0 = x0.len() as int;
    let a1 = x1.len() as int;
    let a2 = x2.len() as int;
    let a3 = x3.len() as int;
    let a4 = x4.len() as int;
    let a5 = x5.len() as int;
    let a6 = x6.len() as int;
    let a7 = x7.len() as int;
    let a8 = x8.len() as int;
    let a9 = x9.len() as int;
    assert(s.subrange(0, len) =~= s);
    lemma_split_tok(s, 0, len, x9, seq!['}']);
    lemma_split_tok(s, 0, a9, x8, v5);
    lemma_split_tok(s, 0, a8, x7, auto_key());
    lemma_split_tok(s, 0, a7, x6, v4);
    lemma_split_tok(s, 0, a6, x5, notifications_key());
    lemma_split_tok(s, 0, a5, x4, v3);
    lemma_split_tok(s, 0, a4, x3, password_key());
    lemma_split_tok(s, 0, a3, x2, q2);
    lemma_split_tok(s, 0, a2, x1, username_key());
    lemma_split_tok(s, 0, a1, x0, q1);
    assert(a1 == rt_pos1(m));
    assert(a3 == rt_pos2(m));
    assert(a5 == rt_pos3(m));
    assert(a7 == rt_pos4(m));
    assert(a9 == rt_pos5(m));
    assert(s.subrange(a9, len) == seq!['}']);
    assert(s.subrange(a9, len)[0] == s[a9]);
}

/// Every field of an encoded record parses, each at its position.
proof fn lemma_round_trip_fields(m: ConfigModel)
    ensures
        tok_at(spec_config_json(m), 0, portal_key()),
        sp_string_at(spec_config_json(m), portal_key().len() as int) == Some(
            (m.portal, rt_pos1(m)),
        ),
        tok_at(spec_config_json(m), rt_pos1(m), username_key()),
        sp_string_at(spec_config_json(m), rt_pos1(m) + username_key().len()) == Some(
            (m.username, rt_pos2(m)),
        ),
        tok_at(spec_config_json(m), rt_pos2(m), password_key()),
        sp_opt_string_at(spec_config_json(m), rt_pos2(m) + password_key().len()) == Some(
            (m.password, rt_pos3(m)),
        ),
        tok_at(spec_config_json(m), rt_pos3(m), notifications_key()),
        sp_opt_bool_at(spec_config_json(m), rt_pos3(m) + notifications_key().len()) == Some(
            (m.notifications_enabled, rt_pos4(m)),
        ),
        tok_at(spec_config_json(m), rt_pos4(m), auto_key()),
        sp_opt_bool_at(spec_config_json(m), rt_pos4(m) + auto_key().len()) == Some(
            (m.auto_connect, rt_pos5(m)),
        ),
        rt_pos5(m) + 1 == spec_config_json(m).len(),
        0 <= rt_pos5(m) < spec_config_json(m).len(),
        spec_config_json(m)[rt_pos5(m)] == '}',
{
    let s = spec_config_json(m);
    lemma_round_trip_splits(m);
    lemma_string_at_quoted(m.portal, s, portal_key().len() as int);
    lemma_string_at_quoted(m.username, s, rt_pos1(m) + username_key().len());
    lemma_opt_string_at_json(m.password, s, rt_pos2(m) + password_key().len());
    lemma_opt_bool_at_json(m.notifications_enabled, s, rt_pos3(m) + notifications_key().len());
    lemma_opt_bool_at_json(m.auto_connect, s, rt_pos4(m) + auto_key().len());
}

/// The round trip: parsing the encoding of any configuration record
/// gives exactly that record back, whatever its strings hold.
pub proof fn lemma_config_round_trip(m: ConfigModel)
    ensures
        sp_parse_config(spec_config_json(m)) == Some(m),
{
    lemma_round_trip_fields(m);
    lemma_parse_eval(
        spec_config_json(m),
        m,
        rt_pos1(m),
        rt_pos2(m),
        rt_pos3(m),
        rt_pos4(m),
        rt_pos5(m),
    );
}


/// Parses a configuration record out of the text read from disk. The
/// accepted texts are exactly those of [`sp_parse_config`]: the shape
/// the save path writes, with optional fields possibly left out.
pub fn parse_config(s: &str) -> (r: Option<VpnConfig>)
    ensures
        match r {
            Some(c) => sp_parse_config(s@) == Some(c@),
            None => sp_parse_config(s@) is None,
        },
{
    let v = str_chars(s);
    parse_config_chars(&v)
}

} // verus!
