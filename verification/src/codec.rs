//! A JSON codec for the shared project state, written as the engine's own
//! logic: serialization is a mathematical function of the state, parsing is
//! a total recursive-descent function over character sequences, and parsing
//! a serialized state is proved to give the state back, for every state. The
//! serializer emits a canonical form: fixed field order, no interleaved
//! whitespace, the five short escapes, and `\u00XX` for the other control
//! characters. The parser accepts more: insignificant whitespace may stand
//! between any two tokens and after the last, as in pretty-printed JSON.
//! Field order stays fixed.

use crate::errors::FatalError;
use crate::factsheet::{FactSheet, FactSheetView, ProjectScope, RouteObject, RouteObjectView};
use vstd::prelude::*;

verus! {

// ---------------------------------------------------------------------------
// Text and escaping
// ---------------------------------------------------------------------------
/// The lowercase hexadecimal digit of a value below sixteen.
pub open spec fn hex_digit(v: nat) -> char {
    if v == 0 {
        '0'
    } else if v == 1 {
        '1'
    } else if v == 2 {
        '2'
    } else if v == 3 {
        '3'
    } else if v == 4 {
        '4'
    } else if v == 5 {
        '5'
    } else if v == 6 {
        '6'
    } else if v == 7 {
        '7'
    } else if v == 8 {
        '8'
    } else if v == 9 {
        '9'
    } else if v == 10 {
        'a'
    } else if v == 11 {
        'b'
    } else if v == 12 {
        'c'
    } else if v == 13 {
        'd'
    } else if v == 14 {
        'e'
    } else {
        'f'
    }
}

/// The value of a lowercase hexadecimal digit.
pub open spec fn hex_value(c: char) -> Option<nat> {
    if c == '0' {
        Some(0 as nat)
    } else if c == '1' {
        Some(1 as nat)
    } else if c == '2' {
        Some(2 as nat)
    } else if c == '3' {
        Some(3 as nat)
    } else if c == '4' {
        Some(4 as nat)
    } else if c == '5' {
        Some(5 as nat)
    } else if c == '6' {
        Some(6 as nat)
    } else if c == '7' {
        Some(7 as nat)
    } else if c == '8' {
        Some(8 as nat)
    } else if c == '9' {
        Some(9 as nat)
    } else if c == 'a' {
        Some(10 as nat)
    } else if c == 'b' {
        Some(11 as nat)
    } else if c == 'c' {
        Some(12 as nat)
    } else if c == 'd' {
        Some(13 as nat)
    } else if c == 'e' {
        Some(14 as nat)
    } else if c == 'f' {
        Some(15 as nat)
    } else {
        None
    }
}

/// The character with a given code point below 32.
pub open spec fn code_char(code: nat) -> char {
    (code as u8) as char
}

/// How one character appears inside a serialized JSON string.
pub open spec fn escaped_char(c: char) -> Seq<char> {
    if c == '"' {
        seq!['\\', '"']
    } else if c == '\\' {
        seq!['\\', '\\']
    } else if c == '\n' {
        seq!['\\', 'n']
    } else if c == '\r' {
        seq!['\\', 'r']
    } else if c == '\t' {
        seq!['\\', 't']
    } else if (c as u32) < 32 {
        seq![
            '\\',
            'u',
            '0',
            '0',
            hex_digit(((c as u32) / 16) as nat),
            hex_digit(((c as u32) % 16) as nat),
        ]
    } else {
        seq![c]
    }
}

/// What an escape code stands for, if it is one of the five the codec uses.
pub open spec fn unescaped_char(c: char) -> Option<char> {
    if c == '"' {
        Some('"')
    } else if c == '\\' {
        Some('\\')
    } else if c == 'n' {
        Some('\n')
    } else if c == 'r' {
        Some('\r')
    } else if c == 't' {
        Some('\t')
    } else {
        None
    }
}

/// A character that stands for itself inside a serialized JSON string.
pub open spec fn plain_char(c: char) -> bool {
    c != '"' && c != '\\' && c as u32 >= 32
}

/// The serialized body of a JSON string.
pub open spec fn escaped_text(s: Seq<char>) -> Seq<char>
    decreases s.len(),
{
    if s.len() == 0 {
        Seq::empty()
    } else {
        escaped_char(s[0]) + escaped_text(s.skip(1))
    }
}

/// A serialized JSON string, quotes included.
pub open spec fn json_string(s: Seq<char>) -> Seq<char> {
    seq!['"'] + escaped_text(s) + seq!['"']
}

pub open spec fn json_bool(b: bool) -> Seq<char> {
    if b {
        "true"@
    } else {
        "false"@
    }
}

pub open spec fn json_opt_string(o: Option<Seq<char>>) -> Seq<char> {
    match o {
        None => "null"@,
        Some(s) => json_string(s),
    }
}

// ---------------------------------------------------------------------------
// Parsing: total recursive-descent functions over character sequences. Each
// returns the parsed value and the unconsumed rest, or `None` on any input
// the grammar refuses.
// ---------------------------------------------------------------------------
/// Consume an expected literal prefix.
pub open spec fn p_lit(s: Seq<char>, lit: Seq<char>) -> Option<Seq<char>> {
    if lit.len() <= s.len() && s.take(lit.len() as int) == lit {
        Some(s.skip(lit.len() as int))
    } else {
        None
    }
}

/// Insignificant JSON whitespace.
pub open spec fn is_ws(c: char) -> bool {
    c == ' ' || c == '\n' || c == '\t' || c == '\r'
}

/// Drop insignificant whitespace from the front of the input.
pub open spec fn skip_ws(s: Seq<char>) -> Seq<char>
    decreases s.len(),
{
    if s.len() > 0 && is_ws(s[0]) {
        skip_ws(s.skip(1))
    } else {
        s
    }
}

/// Consume an expected literal token, whitespace before it allowed.
pub open spec fn p_tok(s: Seq<char>, lit: Seq<char>) -> Option<Seq<char>> {
    p_lit(skip_ws(s), lit)
}

/// Skipping whitespace leaves an input that starts with none untouched.
pub proof fn lemma_skip_ws_none(s: Seq<char>)
    requires
        s.len() == 0 || !is_ws(s[0]),
    ensures
        skip_ws(s) == s,
{
}

/// Concatenation of character sequences associates.
pub proof fn lemma_assoc(a: Seq<char>, b: Seq<char>, c: Seq<char>)
    ensures
        (a + b) + c == a + (b + c),
{
    assert((a + b) + c =~= a + (b + c));
}

/// A literal token off the front of a whitespace-free head parses exactly.
pub proof fn lemma_p_tok(lit: Seq<char>, rest: Seq<char>)
    requires
        lit.len() > 0,
        !is_ws(lit[0]),
    ensures
        p_tok(lit + rest, lit) == Some(rest),
{
    assert((lit + rest)[0] == lit[0]);
    lemma_skip_ws_none(lit + rest);
    lemma_p_lit(lit, rest);
}

/// Consume the body of a JSON string after its opening quote, up to and
/// including the closing quote.
pub open spec fn p_string_body(s: Seq<char>) -> Option<(Seq<char>, Seq<char>)>
    decreases s.len(),
{
    if s.len() == 0 {
        None
    } else if s[0] == '"' {
        Some((Seq::empty(), s.skip(1)))
    } else if s[0] == '\\' {
        if s.len() < 2 {
            None
        } else if s[1] == 'u' {
            if s.len() < 6 || s[2] != '0' || s[3] != '0' {
                None
            } else {
                match (hex_value(s[4]), hex_value(s[5])) {
                    (Some(v1), Some(v0)) => if 16 * v1 + v0 < 32 {
                        match p_string_body(s.skip(6)) {
                            Some((t, r)) => Some((seq![code_char(16 * v1 + v0)] + t, r)),
                            None => None,
                        }
                    } else {
                        None
                    },
                    _ => None,
                }
            }
        } else {
            match unescaped_char(s[1]) {
                Some(c) => match p_string_body(s.skip(2)) {
                    Some((t, r)) => Some((seq![c] + t, r)),
                    None => None,
                },
                None => None,
            }
        }
    } else if plain_char(s[0]) {
        match p_string_body(s.skip(1)) {
            Some((t, r)) => Some((seq![s[0]] + t, r)),
            None => None,
        }
    } else {
        None
    }
}

/// Consume a quoted JSON string.
pub open spec fn p_string(s: Seq<char>) -> Option<(Seq<char>, Seq<char>)> {
    if s.len() > 0 && s[0] == '"' {
        p_string_body(s.skip(1))
    } else {
        None
    }
}

pub open spec fn p_bool(s: Seq<char>) -> Option<(bool, Seq<char>)> {
    match p_lit(s, "true"@) {
        Some(r) => Some((true, r)),
        None => match p_lit(s, "false"@) {
            Some(r) => Some((false, r)),
            None => None,
        },
    }
}

pub open spec fn p_opt_string(s: Seq<char>) -> Option<(Option<Seq<char>>, Seq<char>)> {
    match p_lit(s, "null"@) {
        Some(r) => Some((None, r)),
        None => match p_string(s) {
            Some((t, r)) => Some((Some(t), r)),
            None => None,
        },
    }
}

// ---------------------------------------------------------------------------
// Round-trip lemmas for the primitives
// ---------------------------------------------------------------------------
/// Parsing an expected literal off the front of a sequence that starts with
/// it succeeds and leaves exactly the rest.
pub proof fn lemma_p_lit(lit: Seq<char>, rest: Seq<char>)
    ensures
        p_lit(lit + rest, lit) == Some(rest),
{
    assert((lit + rest).take(lit.len() as int) =~= lit);
    assert((lit + rest).skip(lit.len() as int) =~= rest);
}

/// A literal fails to parse where the first character differs.
pub proof fn lemma_p_lit_mismatch(s: Seq<char>, lit: Seq<char>)
    requires
        lit.len() > 0,
        s.len() > 0 ==> s[0] != lit[0],
    ensures
        p_lit(s, lit) is None,
{
    if lit.len() <= s.len() {
        assert(s.take(lit.len() as int)[0] == s[0]);
        assert(s.take(lit.len() as int) != lit);
    }
}

/// Every character has exactly one of three escape shapes: itself, a
/// two-character short escape the parser maps back, or a six-character
/// `\u00` escape whose hex digits code the character.
pub proof fn lemma_escaped_char_shape(c: char)
    ensures
        plain_char(c) ==> escaped_char(c) == seq![c],
        (c == '"' || c == '\\' || c == '\n' || c == '\r' || c == '\t') ==> escaped_char(
            c,
        ).len() == 2 && escaped_char(c)[0] == '\\' && escaped_char(c)[1] != 'u'
            && unescaped_char(escaped_char(c)[1]) == Some(c),
        !plain_char(c) && !(c == '"' || c == '\\' || c == '\n' || c == '\r' || c == '\t') ==> {
            let v1 = hex_value(escaped_char(c)[4]);
            let v0 = hex_value(escaped_char(c)[5]);
            &&& (c as u32) < 32
            &&& escaped_char(c).len() == 6
            &&& escaped_char(c)[0] == '\\'
            &&& escaped_char(c)[1] == 'u'
            &&& escaped_char(c)[2] == '0'
            &&& escaped_char(c)[3] == '0'
            &&& v1 == Some((((c as u32) / 16) as nat))
            &&& v0 == Some((((c as u32) % 16) as nat))
            &&& 16 * ((c as u32) / 16) + (c as u32) % 16 == c as u32
            &&& (c as u32) < 32 ==> code_char((c as u32) as nat) == c
        },
{
    if !plain_char(c) && !(c == '"' || c == '\\' || c == '\n' || c == '\r' || c == '\t') {
        assert((c as u32) < 32);
        lemma_hex_digit_value(((c as u32) / 16) as nat);
        lemma_hex_digit_value(((c as u32) % 16) as nat);
    }
}

/// The hex digit of a value below sixteen reads back as that value.
proof fn lemma_hex_digit_value(v: nat)
    requires
        v < 16,
    ensures
        hex_value(hex_digit(v)) == Some(v),
{
}

/// Parsing the escaped body of a string, followed by the closing quote and
/// any rest, recovers the string and leaves the rest.
#[verifier::rlimit(100)]
pub proof fn lemma_p_string_body(t: Seq<char>, rest: Seq<char>)
    ensures
        p_string_body(escaped_text(t) + seq!['"'] + rest) == Some((t, rest)),
    decreases t.len(),
{
    let s = escaped_text(t) + seq!['"'] + rest;
    if t.len() == 0 {
        assert(s =~= seq!['"'] + rest);
        assert(s[0] == '"');
        assert(s.skip(1) =~= rest);
    } else {
        let c = t[0];
        lemma_escaped_char_shape(c);
        assert(escaped_text(t) == escaped_char(c) + escaped_text(t.skip(1)));
        let tail = escaped_text(t.skip(1)) + seq!['"'] + rest;
        lemma_p_string_body(t.skip(1), rest);
        if plain_char(c) {
            assert(s =~= seq![c] + tail);
            assert(s[0] == c);
            assert(s.skip(1) =~= tail);
            assert(p_string_body(s) == Some((seq![c] + t.skip(1), rest)));
            assert(seq![c] + t.skip(1) =~= t);
        } else if c == '"' || c == '\\' || c == '\n' || c == '\r' || c == '\t' {
            let e = escaped_char(c)[1];
            assert(s =~= seq!['\\', e] + tail);
            assert(s[0] == '\\');
            assert(s[1] == e);
            assert(s.len() >= 2);
            assert(s.skip(2) =~= tail);
            assert(p_string_body(s) == Some((seq![c] + t.skip(1), rest)));
            assert(seq![c] + t.skip(1) =~= t);
        } else {
            let h1 = escaped_char(c)[4];
            let h0 = escaped_char(c)[5];
            assert(s =~= seq!['\\', 'u', '0', '0', h1, h0] + tail);
            assert(s[0] == '\\' && s[1] == 'u' && s[2] == '0' && s[3] == '0');
            assert(s[4] == h1 && s[5] == h0);
            assert(s.len() >= 6);
            assert(s.skip(6) =~= tail);
            let v1 = ((c as u32) / 16) as nat;
            let v0 = ((c as u32) % 16) as nat;
            assert(hex_value(s[4]) == Some(v1) && hex_value(s[5]) == Some(v0));
            assert(16 * v1 + v0 == (c as u32) as nat);
            assert(code_char(16 * v1 + v0) == c);
            assert(p_string_body(s) == Some((seq![c] + t.skip(1), rest)));
            assert(seq![c] + t.skip(1) =~= t);
        }
    }
}

/// Parsing a serialized JSON string recovers the string.
pub proof fn lemma_p_string(t: Seq<char>, rest: Seq<char>)
    ensures
        p_string(json_string(t) + rest) == Some((t, rest)),
        (json_string(t) + rest).len() > 0,
        (json_string(t) + rest)[0] == '"',
{
    let s = json_string(t) + rest;
    assert(s[0] == '"');
    assert(s.skip(1) =~= escaped_text(t) + seq!['"'] + rest);
    lemma_p_string_body(t, rest);
}

/// Parsing a serialized boolean recovers it.
pub proof fn lemma_p_bool(b: bool, rest: Seq<char>)
    ensures
        p_bool(json_bool(b) + rest) == Some((b, rest)),
{
    reveal_strlit("true");
    reveal_strlit("false");
    if b {
        lemma_p_lit("true"@, rest);
    } else {
        lemma_p_lit_mismatch("false"@ + rest, "true"@);
        lemma_p_lit("false"@, rest);
    }
}

/// Parsing a serialized optional string recovers it.
pub proof fn lemma_p_opt_string(o: Option<Seq<char>>, rest: Seq<char>)
    ensures
        p_opt_string(json_opt_string(o) + rest) == Some((o, rest)),
{
    reveal_strlit("null");
    match o {
        None => {
            lemma_p_lit("null"@, rest);
        },
        Some(t) => {
            lemma_p_string(t, rest);
            lemma_p_lit_mismatch(json_string(t) + rest, "null"@);
        },
    }
}

/// A serialized boolean parses after any leading whitespace is dropped.
pub proof fn lemma_p_bool_ws(b: bool, rest: Seq<char>)
    ensures
        p_bool(skip_ws(json_bool(b) + rest)) == Some((b, rest)),
{
    reveal_strlit("true");
    reveal_strlit("false");
    assert((json_bool(b) + rest)[0] == json_bool(b)[0]);
    lemma_skip_ws_none(json_bool(b) + rest);
    lemma_p_bool(b, rest);
}

/// A serialized string parses after any leading whitespace is dropped.
pub proof fn lemma_p_string_ws(t: Seq<char>, rest: Seq<char>)
    ensures
        p_string(skip_ws(json_string(t) + rest)) == Some((t, rest)),
{
    assert((json_string(t) + rest)[0] == '"');
    lemma_skip_ws_none(json_string(t) + rest);
    lemma_p_string(t, rest);
}

/// A serialized optional string parses after leading whitespace is dropped.
pub proof fn lemma_p_opt_string_ws(o: Option<Seq<char>>, rest: Seq<char>)
    ensures
        p_opt_string(skip_ws(json_opt_string(o) + rest)) == Some((o, rest)),
{
    reveal_strlit("null");
    match o {
        None => {
            assert((json_opt_string(o) + rest)[0] == 'n');
        },
        Some(t) => {
            assert((json_opt_string(o) + rest)[0] == '"');
        },
    }
    lemma_skip_ws_none(json_opt_string(o) + rest);
    lemma_p_opt_string(o, rest);
}

/// One `"key":` prefix followed by a boolean, whitespace allowed between
/// the tokens.
pub open spec fn p_bool_field(s: Seq<char>, key: Seq<char>) -> Option<(bool, Seq<char>)> {
    match p_tok(s, key) {
        None => None,
        Some(s1) => match p_tok(s1, ":"@) {
            None => None,
            Some(s2) => p_bool(skip_ws(s2)),
        },
    }
}

/// One `"key":` prefix followed by a string, whitespace allowed between
/// the tokens.
pub open spec fn p_string_field(s: Seq<char>, key: Seq<char>) -> Option<(Seq<char>, Seq<char>)> {
    match p_tok(s, key) {
        None => None,
        Some(s1) => match p_tok(s1, ":"@) {
            None => None,
            Some(s2) => p_string(skip_ws(s2)),
        },
    }
}

/// One `"key":` prefix followed by a string or `null`, whitespace allowed
/// between the tokens.
pub open spec fn p_opt_string_field(s: Seq<char>, key: Seq<char>) -> Option<
    (Option<Seq<char>>, Seq<char>),
> {
    match p_tok(s, key) {
        None => None,
        Some(s1) => match p_tok(s1, ":"@) {
            None => None,
            Some(s2) => p_opt_string(skip_ws(s2)),
        },
    }
}

/// A serialized boolean field parses and leaves exactly the rest.
pub proof fn lemma_p_bool_field(key: Seq<char>, b: bool, rest: Seq<char>)
    requires
        key.len() > 0,
        !is_ws(key[0]),
    ensures
        p_bool_field(key + (":"@ + (json_bool(b) + rest)), key) == Some((b, rest)),
{
    reveal_strlit(":");
    lemma_p_tok(key, ":"@ + (json_bool(b) + rest));
    lemma_p_tok(":"@, json_bool(b) + rest);
    lemma_p_bool_ws(b, rest);
}

/// A serialized string field parses and leaves exactly the rest.
pub proof fn lemma_p_string_field(key: Seq<char>, t: Seq<char>, rest: Seq<char>)
    requires
        key.len() > 0,
        !is_ws(key[0]),
    ensures
        p_string_field(key + (":"@ + (json_string(t) + rest)), key) == Some((t, rest)),
{
    reveal_strlit(":");
    lemma_p_tok(key, ":"@ + (json_string(t) + rest));
    lemma_p_tok(":"@, json_string(t) + rest);
    lemma_p_string_ws(t, rest);
}

/// A serialized optional-string field parses and leaves exactly the rest.
pub proof fn lemma_p_opt_string_field(key: Seq<char>, o: Option<Seq<char>>, rest: Seq<char>)
    requires
        key.len() > 0,
        !is_ws(key[0]),
    ensures
        p_opt_string_field(key + (":"@ + (json_opt_string(o) + rest)), key) == Some((o, rest)),
{
    reveal_strlit(":");
    lemma_p_tok(key, ":"@ + (json_opt_string(o) + rest));
    lemma_p_tok(":"@, json_opt_string(o) + rest);
    lemma_p_opt_string_ws(o, rest);
}

// ---------------------------------------------------------------------------
// Arrays of strings
// ---------------------------------------------------------------------------
/// The comma-joined items of a nonempty serialized string array.
pub open spec fn json_string_items(v: Seq<Seq<char>>) -> Seq<char>
    decreases v.len(),
{
    if v.len() <= 1 {
        json_string(v[0])
    } else {
        json_string(v[0]) + seq![','] + json_string_items(v.skip(1))
    }
}

pub open spec fn json_string_array(v: Seq<Seq<char>>) -> Seq<char> {
    if v.len() == 0 {
        "[]"@
    } else {
        seq!['['] + json_string_items(v) + seq![']']
    }
}

/// Consume the items of a string array after its opening bracket, up to and
/// including the closing bracket. The length guard on the recursion is
/// always true, since a parsed string consumes at least its two quotes.
pub open spec fn p_string_items(s: Seq<char>) -> Option<(Seq<Seq<char>>, Seq<char>)>
    decreases s.len(),
{
    match p_string(skip_ws(s)) {
        None => None,
        Some((v, r)) => {
            let r1 = skip_ws(r);
            if r1.len() > 0 && r1[0] == ',' {
                if r1.len() < s.len() {
                    match p_string_items(r1.skip(1)) {
                        None => None,
                        Some((vs, r2)) => Some((seq![v] + vs, r2)),
                    }
                } else {
                    None
                }
            } else if r1.len() > 0 && r1[0] == ']' {
                Some((seq![v], r1.skip(1)))
            } else {
                None
            }
        },
    }
}

pub open spec fn p_string_array(s: Seq<char>) -> Option<(Seq<Seq<char>>, Seq<char>)> {
    if s.len() > 0 && s[0] == '[' {
        let s1 = skip_ws(s.skip(1));
        if s1.len() > 0 && s1[0] == ']' {
            Some((Seq::empty(), s1.skip(1)))
        } else {
            p_string_items(s.skip(1))
        }
    } else {
        None
    }
}

/// A serialized string has its two quotes, so parsing it always consumes.
pub proof fn lemma_json_string_len(t: Seq<char>)
    ensures
        json_string(t).len() >= 2,
{
}

/// The single-item case of `lemma_p_string_items`.
#[verifier::rlimit(100)]
proof fn lemma_p_string_items_single(v: Seq<Seq<char>>, rest: Seq<char>)
    requires
        v.len() == 1,
    ensures
        p_string_items(json_string_items(v) + seq![']'] + rest) == Some((v, rest)),
{
    let s = json_string_items(v) + seq![']'] + rest;
    assert(s =~= json_string(v[0]) + (seq![']'] + rest));
    assert(s[0] == '"');
    lemma_skip_ws_none(s);
    lemma_p_string(v[0], seq![']'] + rest);
    let r = seq![']'] + rest;
    assert(r[0] == ']');
    lemma_skip_ws_none(r);
    assert(r.skip(1) =~= rest);
    assert(seq![v[0]] =~= v);
}

/// The step case of `lemma_p_string_items`: its recursion is carried out in
/// the main lemma, which hands the tail's result in as a premise.
#[verifier::rlimit(100)]
proof fn lemma_p_string_items_cons(v: Seq<Seq<char>>, rest: Seq<char>)
    requires
        v.len() > 1,
        p_string_items(json_string_items(v.skip(1)) + seq![']'] + rest) == Some((v.skip(1), rest)),
    ensures
        p_string_items(json_string_items(v) + seq![']'] + rest) == Some((v, rest)),
{
    let s = json_string_items(v) + seq![']'] + rest;
    let tail = json_string_items(v.skip(1)) + seq![']'] + rest;
    assert(s =~= json_string(v[0]) + (seq![','] + tail));
    assert(s[0] == '"');
    lemma_skip_ws_none(s);
    lemma_p_string(v[0], seq![','] + tail);
    let r = seq![','] + tail;
    assert(r[0] == ',');
    lemma_skip_ws_none(r);
    lemma_json_string_len(v[0]);
    assert(r.len() < s.len());
    assert(r.skip(1) =~= tail);
    assert(p_string_items(s) == Some((seq![v[0]] + v.skip(1), rest)));
    assert(seq![v[0]] + v.skip(1) =~= v);
}

/// Parsing the serialized items of a nonempty string array recovers them.
pub proof fn lemma_p_string_items(v: Seq<Seq<char>>, rest: Seq<char>)
    requires
        v.len() >= 1,
    ensures
        p_string_items(json_string_items(v) + seq![']'] + rest) == Some((v, rest)),
    decreases v.len(),
{
    if v.len() == 1 {
        lemma_p_string_items_single(v, rest);
    } else {
        lemma_p_string_items(v.skip(1), rest);
        lemma_p_string_items_cons(v, rest);
    }
}

/// Parsing a serialized string array recovers it.
pub proof fn lemma_p_string_array(v: Seq<Seq<char>>, rest: Seq<char>)
    ensures
        p_string_array(json_string_array(v) + rest) == Some((v, rest)),
        (json_string_array(v) + rest).len() > 0,
        (json_string_array(v) + rest)[0] == '[',
{
    reveal_strlit("[]");
    let s = json_string_array(v) + rest;
    if v.len() == 0 {
        assert(s =~= seq!['[', ']'] + rest);
        assert(s[0] == '[' && s[1] == ']');
        assert(s.skip(1) =~= seq![']'] + rest);
        lemma_skip_ws_none(seq![']'] + rest);
        assert((seq![']'] + rest)[0] == ']');
        assert((seq![']'] + rest).skip(1) =~= rest);
        assert(Seq::<Seq<char>>::empty() =~= v);
    } else {
        lemma_json_string_len(v[0]);
        assert(json_string_items(v)[0] == json_string(v[0])[0]);
        assert(json_string(v[0])[0] == '"');
        assert(s[0] == '[');
        assert(s[1] == '"');
        assert(s.skip(1) =~= json_string_items(v) + seq![']'] + rest);
        lemma_skip_ws_none(s.skip(1));
        lemma_p_string_items(v, rest);
    }
}

// ---------------------------------------------------------------------------
// The project scope object
// ---------------------------------------------------------------------------
pub open spec fn json_scope(sc: ProjectScope) -> Seq<char> {
    "{"@ + "\"is_crud_required\""@ + ":"@ + json_bool(sc.is_crud_required) + ","@
        + "\"is_user_login_and_logout\""@ + ":"@ + json_bool(sc.is_user_login_and_logout) + ","@
        + "\"is_external_urls_required\""@ + ":"@ + json_bool(sc.is_external_urls_required)
        + "}"@
}

pub open spec fn p_scope(s: Seq<char>) -> Option<(ProjectScope, Seq<char>)> {
    match p_tok(s, "{"@) {
        None => None,
        Some(s1) => p_scope_fields(s1),
    }
}

/// The three fields of a scope object, after its opening brace.
pub open spec fn p_scope_fields(s1: Seq<char>) -> Option<(ProjectScope, Seq<char>)> {
    match p_bool_field(s1, "\"is_crud_required\""@) {
            None => None,
            Some((crud, s2)) => match p_tok(s2, ","@) {
                None => None,
                Some(s3) => match p_bool_field(s3, "\"is_user_login_and_logout\""@) {
                    None => None,
                    Some((login, s4)) => match p_tok(s4, ","@) {
                        None => None,
                        Some(s5) => match p_bool_field(s5, "\"is_external_urls_required\""@) {
                            None => None,
                            Some((urls, s6)) => match p_tok(s6, "}"@) {
                                None => None,
                                Some(s7) => Some(
                                    (
                                        ProjectScope {
                                            is_crud_required: crud,
                                            is_user_login_and_logout: login,
                                            is_external_urls_required: urls,
                                        },
                                        s7,
                                    ),
                                ),
                            },
                        },
                    },
                },
            },
    }
}

/// The serialized fields of a scope parse and leave exactly the rest.
#[verifier::rlimit(100)]
proof fn lemma_p_scope_fields(sc: ProjectScope, rest: Seq<char>)
    ensures
        p_scope_fields(
            "\"is_crud_required\""@ + (":"@ + (json_bool(sc.is_crud_required) + (","@ + (
            "\"is_user_login_and_logout\""@ + (":"@ + (json_bool(sc.is_user_login_and_logout) + (
            ","@ + ("\"is_external_urls_required\""@ + (":"@ + (json_bool(
                sc.is_external_urls_required,
            ) + ("}"@ + rest))))))))))),
        ) == Some((sc, rest)),
{
    reveal_strlit("}");
    reveal_strlit(",");
    reveal_strlit("\"is_crud_required\"");
    reveal_strlit("\"is_user_login_and_logout\"");
    reveal_strlit("\"is_external_urls_required\"");
    let t7 = "}"@ + rest;
    let f3 = "\"is_external_urls_required\""@ + (":"@ + (json_bool(sc.is_external_urls_required)
        + t7));
    let t5 = ","@ + f3;
    let f2 = "\"is_user_login_and_logout\""@ + (":"@ + (json_bool(sc.is_user_login_and_logout)
        + t5));
    let t3 = ","@ + f2;
    lemma_p_bool_field("\"is_crud_required\""@, sc.is_crud_required, t3);
    lemma_p_tok(","@, f2);
    lemma_p_bool_field("\"is_user_login_and_logout\""@, sc.is_user_login_and_logout, t5);
    lemma_p_tok(","@, f3);
    lemma_p_bool_field("\"is_external_urls_required\""@, sc.is_external_urls_required, t7);
    lemma_p_tok("}"@, rest);
}

/// Parsing a serialized project scope recovers it.
#[verifier::rlimit(100)]
pub proof fn lemma_p_scope(sc: ProjectScope, rest: Seq<char>)
    ensures
        p_scope(json_scope(sc) + rest) == Some((sc, rest)),
        (json_scope(sc) + rest).len() > 0,
        (json_scope(sc) + rest)[0] == '{',
{
    reveal_strlit("{");
    let s = json_scope(sc) + rest;
    let c01 = "{"@;
    let c02 = "\"is_crud_required\""@;
    let c03 = ":"@;
    let c04 = json_bool(sc.is_crud_required);
    let c05 = ","@;
    let c06 = "\"is_user_login_and_logout\""@;
    let c07 = ":"@;
    let c08 = json_bool(sc.is_user_login_and_logout);
    let c09 = ","@;
    let c10 = "\"is_external_urls_required\""@;
    let c11 = ":"@;
    let c12 = json_bool(sc.is_external_urls_required);
    let c13 = "}"@;
    let l02 = c01 + c02;
    let l03 = l02 + c03;
    let l04 = l03 + c04;
    let l05 = l04 + c05;
    let l06 = l05 + c06;
    let l07 = l06 + c07;
    let l08 = l07 + c08;
    let l09 = l08 + c09;
    let l10 = l09 + c10;
    let l11 = l10 + c11;
    let l12 = l11 + c12;
    let t13 = c13 + rest;
    let t12 = c12 + t13;
    let t11 = c11 + t12;
    let t10 = c10 + t11;
    let t09 = c09 + t10;
    let t08 = c08 + t09;
    let t07 = c07 + t08;
    let t06 = c06 + t07;
    let t05 = c05 + t06;
    let t04 = c04 + t05;
    let t03 = c03 + t04;
    let t02 = c02 + t03;
    lemma_assoc(l12, c13, rest);
    lemma_assoc(l11, c12, t13);
    lemma_assoc(l10, c11, t12);
    lemma_assoc(l09, c10, t11);
    lemma_assoc(l08, c09, t10);
    lemma_assoc(l07, c08, t09);
    lemma_assoc(l06, c07, t08);
    lemma_assoc(l05, c06, t07);
    lemma_assoc(l04, c05, t06);
    lemma_assoc(l03, c04, t05);
    lemma_assoc(l02, c03, t04);
    lemma_assoc(c01, c02, t03);
    assert(s == c01 + t02);
    lemma_p_tok(c01, t02);
    lemma_p_scope_fields(sc, rest);
    assert(p_scope_fields(t02) == Some((sc, rest)));
    assert(s[0] == '{');
}

pub open spec fn json_opt_scope(o: Option<ProjectScope>) -> Seq<char> {
    match o {
        None => "null"@,
        Some(sc) => json_scope(sc),
    }
}

pub open spec fn p_opt_scope(s: Seq<char>) -> Option<(Option<ProjectScope>, Seq<char>)> {
    match p_lit(s, "null"@) {
        Some(r) => Some((None, r)),
        None => match p_scope(s) {
            Some((sc, r)) => Some((Some(sc), r)),
            None => None,
        },
    }
}

/// Parsing a serialized optional project scope recovers it.
pub proof fn lemma_p_opt_scope(o: Option<ProjectScope>, rest: Seq<char>)
    ensures
        p_opt_scope(json_opt_scope(o) + rest) == Some((o, rest)),
{
    reveal_strlit("null");
    match o {
        None => {
            lemma_p_lit("null"@, rest);
        },
        Some(sc) => {
            lemma_p_scope(sc, rest);
            lemma_p_lit_mismatch(json_scope(sc) + rest, "null"@);
        },
    }
}

// ---------------------------------------------------------------------------
// Route descriptors
// ---------------------------------------------------------------------------
pub open spec fn json_route(r: RouteObjectView) -> Seq<char> {
    "{"@ + "\"route\""@ + ":"@ + json_string(r.route) + ","@ + "\"method\""@ + ":"@ + json_string(
        r.method,
    ) + ","@ + "\"is_route_dynamic\""@ + ":"@ + json_bool(r.is_route_dynamic) + ","@
        + "\"request_body\""@ + ":"@ + json_opt_string(r.request_body) + ","@ + "\"response\""@
        + ":"@ + json_opt_string(r.response) + "}"@
}

/// The tail of a route object, from the separator before the
/// `is_route_dynamic` key on.
pub open spec fn p_route_tail(s: Seq<char>) -> Option<
    ((bool, Option<Seq<char>>, Option<Seq<char>>), Seq<char>),
> {
    match p_tok(s, ","@) {
        None => None,
        Some(s1) => match p_bool_field(s1, "\"is_route_dynamic\""@) {
            None => None,
            Some((dynamic, s2)) => match p_tok(s2, ","@) {
                None => None,
                Some(s3) => match p_opt_string_field(s3, "\"request_body\""@) {
                    None => None,
                    Some((body, s4)) => match p_tok(s4, ","@) {
                        None => None,
                        Some(s5) => match p_opt_string_field(s5, "\"response\""@) {
                            None => None,
                            Some((resp, s6)) => match p_tok(s6, "}"@) {
                                None => None,
                                Some(s7) => Some(((dynamic, body, resp), s7)),
                            },
                        },
                    },
                },
            },
        },
    }
}

pub open spec fn p_route(s: Seq<char>) -> Option<(RouteObjectView, Seq<char>)> {
    match p_tok(s, "{"@) {
        None => None,
        Some(s1) => match p_string_field(s1, "\"route\""@) {
            None => None,
            Some((route, s2)) => match p_tok(s2, ","@) {
                None => None,
                Some(s3) => match p_string_field(s3, "\"method\""@) {
                    None => None,
                    Some((method, s4)) => match p_route_tail(s4) {
                        None => None,
                        Some(((dynamic, body, resp), s5)) => Some(
                            (
                                RouteObjectView {
                                    route,
                                    method,
                                    is_route_dynamic: dynamic,
                                    request_body: body,
                                    response: resp,
                                },
                                s5,
                            ),
                        ),
                    },
                },
            },
        },
    }
}

/// Parsing the serialized tail of a route object recovers its three fields.
#[verifier::rlimit(100)]
pub proof fn lemma_p_route_tail(
    dynamic: bool,
    body: Option<Seq<char>>,
    resp: Option<Seq<char>>,
    rest: Seq<char>,
)
    ensures
        p_route_tail(
            ","@ + ("\"is_route_dynamic\""@ + (":"@ + (json_bool(dynamic) + (","@ + (
            "\"request_body\""@ + (":"@ + (json_opt_string(body) + (","@ + ("\"response\""@ + (
            ":"@ + (json_opt_string(resp) + ("}"@ + rest)))))))))))),
        ) == Some(((dynamic, body, resp), rest)),
{
    reveal_strlit(",");
    reveal_strlit("}");
    reveal_strlit("\"is_route_dynamic\"");
    reveal_strlit("\"request_body\"");
    reveal_strlit("\"response\"");
    let t7 = "}"@ + rest;
    let f3 = "\"response\""@ + (":"@ + (json_opt_string(resp) + t7));
    let t5 = ","@ + f3;
    let f2 = "\"request_body\""@ + (":"@ + (json_opt_string(body) + t5));
    let t3 = ","@ + f2;
    let f1 = "\"is_route_dynamic\""@ + (":"@ + (json_bool(dynamic) + t3));
    lemma_p_tok(","@, f1);
    lemma_p_bool_field("\"is_route_dynamic\""@, dynamic, t3);
    lemma_p_tok(","@, f2);
    lemma_p_opt_string_field("\"request_body\""@, body, t5);
    lemma_p_tok(","@, f3);
    lemma_p_opt_string_field("\"response\""@, resp, t7);
    lemma_p_tok("}"@, rest);
}

/// Parsing a serialized route object recovers it.
#[verifier::rlimit(100)]
pub proof fn lemma_p_route(r: RouteObjectView, rest: Seq<char>)
    ensures
        p_route(json_route(r) + rest) == Some((r, rest)),
        (json_route(r) + rest).len() > 0,
        (json_route(r) + rest)[0] == '{',
{
    reveal_strlit("{");
    reveal_strlit(",");
    reveal_strlit("\"route\"");
    reveal_strlit("\"method\"");
    let s = json_route(r) + rest;
    let c01 = "{"@;
    let c02 = "\"route\""@;
    let c03 = ":"@;
    let c04 = json_string(r.route);
    let c05 = ","@;
    let c06 = "\"method\""@;
    let c07 = ":"@;
    let c08 = json_string(r.method);
    let c09 = ","@;
    let c10 = "\"is_route_dynamic\""@;
    let c11 = ":"@;
    let c12 = json_bool(r.is_route_dynamic);
    let c13 = ","@;
    let c14 = "\"request_body\""@;
    let c15 = ":"@;
    let c16 = json_opt_string(r.request_body);
    let c17 = ","@;
    let c18 = "\"response\""@;
    let c19 = ":"@;
    let c20 = json_opt_string(r.response);
    let c21 = "}"@;
    let l02 = c01 + c02;
    let l03 = l02 + c03;
    let l04 = l03 + c04;
    let l05 = l04 + c05;
    let l06 = l05 + c06;
    let l07 = l06 + c07;
    let l08 = l07 + c08;
    let l09 = l08 + c09;
    let l10 = l09 + c10;
    let l11 = l10 + c11;
    let l12 = l11 + c12;
    let l13 = l12 + c13;
    let l14 = l13 + c14;
    let l15 = l14 + c15;
    let l16 = l15 + c16;
    let l17 = l16 + c17;
    let l18 = l17 + c18;
    let l19 = l18 + c19;
    let l20 = l19 + c20;
    let t21 = c21 + rest;
    let t20 = c20 + t21;
    let t19 = c19 + t20;
    let t18 = c18 + t19;
    let t17 = c17 + t18;
    let t16 = c16 + t17;
    let t15 = c15 + t16;
    let t14 = c14 + t15;
    let t13 = c13 + t14;
    let t12 = c12 + t13;
    let t11 = c11 + t12;
    let t10 = c10 + t11;
    let t09 = c09 + t10;
    let t08 = c08 + t09;
    let t07 = c07 + t08;
    let t06 = c06 + t07;
    let t05 = c05 + t06;
    let t04 = c04 + t05;
    let t03 = c03 + t04;
    let t02 = c02 + t03;
    lemma_assoc(l20, c21, rest);
    lemma_assoc(l19, c20, t21);
    lemma_assoc(l18, c19, t20);
    lemma_assoc(l17, c18, t19);
    lemma_assoc(l16, c17, t18);
    lemma_assoc(l15, c16, t17);
    lemma_assoc(l14, c15, t16);
    lemma_assoc(l13, c14, t15);
    lemma_assoc(l12, c13, t14);
    lemma_assoc(l11, c12, t13);
    lemma_assoc(l10, c11, t12);
    lemma_assoc(l09, c10, t11);
    lemma_assoc(l08, c09, t10);
    lemma_assoc(l07, c08, t09);
    lemma_assoc(l06, c07, t08);
    lemma_assoc(l05, c06, t07);
    lemma_assoc(l04, c05, t06);
    lemma_assoc(l03, c04, t05);
    lemma_assoc(l02, c03, t04);
    lemma_assoc(c01, c02, t03);
    assert(s == c01 + t02);
    lemma_p_tok(c01, t02);
    lemma_p_string_field(c02, r.route, t05);
    lemma_p_tok(c05, t06);
    lemma_p_string_field(c06, r.method, t09);
    lemma_p_route_tail(r.is_route_dynamic, r.request_body, r.response, rest);
    assert(p_route_tail(t09) == Some(
        ((r.is_route_dynamic, r.request_body, r.response), rest),
    ));
    assert(s[0] == '{');
}

// ---------------------------------------------------------------------------
// Arrays of route descriptors
// ---------------------------------------------------------------------------
pub open spec fn json_route_items(v: Seq<RouteObjectView>) -> Seq<char>
    decreases v.len(),
{
    if v.len() <= 1 {
        json_route(v[0])
    } else {
        json_route(v[0]) + seq![','] + json_route_items(v.skip(1))
    }
}

pub open spec fn json_route_array(v: Seq<RouteObjectView>) -> Seq<char> {
    if v.len() == 0 {
        "[]"@
    } else {
        seq!['['] + json_route_items(v) + seq![']']
    }
}

/// Consume the items of a route array after its opening bracket, up to and
/// including the closing bracket. The length guard on the recursion is
/// always true, since a parsed route consumes at least one character.
pub open spec fn p_route_items(s: Seq<char>) -> Option<(Seq<RouteObjectView>, Seq<char>)>
    decreases s.len(),
{
    match p_route(s) {
        None => None,
        Some((v, r)) => {
            let r1 = skip_ws(r);
            if r1.len() > 0 && r1[0] == ',' {
                if r1.len() < s.len() {
                    match p_route_items(r1.skip(1)) {
                        None => None,
                        Some((vs, r2)) => Some((seq![v] + vs, r2)),
                    }
                } else {
                    None
                }
            } else if r1.len() > 0 && r1[0] == ']' {
                Some((seq![v], r1.skip(1)))
            } else {
                None
            }
        },
    }
}

pub open spec fn p_route_array(s: Seq<char>) -> Option<(Seq<RouteObjectView>, Seq<char>)> {
    if s.len() > 0 && s[0] == '[' {
        let s1 = skip_ws(s.skip(1));
        if s1.len() > 0 && s1[0] == ']' {
            Some((Seq::empty(), s1.skip(1)))
        } else {
            p_route_items(s.skip(1))
        }
    } else {
        None
    }
}

/// A serialized route object is never empty and parsing it always consumes.
pub proof fn lemma_json_route_len(r: RouteObjectView)
    ensures
        json_route(r).len() >= 2,
{
    reveal_strlit("{");
    reveal_strlit("\"route\"");
}

/// The single-item case of `lemma_p_route_items`.
#[verifier::rlimit(100)]
proof fn lemma_p_route_items_single(v: Seq<RouteObjectView>, rest: Seq<char>)
    requires
        v.len() == 1,
    ensures
        p_route_items(json_route_items(v) + seq![']'] + rest) == Some((v, rest)),
{
    let s = json_route_items(v) + seq![']'] + rest;
    assert(s =~= json_route(v[0]) + (seq![']'] + rest));
    lemma_p_route(v[0], seq![']'] + rest);
    let r = seq![']'] + rest;
    assert(r[0] == ']');
    lemma_skip_ws_none(r);
    assert(r.skip(1) =~= rest);
    assert(seq![v[0]] =~= v);
}

/// The step case of `lemma_p_route_items`: its recursion is carried out in
/// the main lemma, which hands the tail's result in as a premise.
#[verifier::rlimit(100)]
proof fn lemma_p_route_items_cons(v: Seq<RouteObjectView>, rest: Seq<char>)
    requires
        v.len() > 1,
        p_route_items(json_route_items(v.skip(1)) + seq![']'] + rest) == Some((v.skip(1), rest)),
    ensures
        p_route_items(json_route_items(v) + seq![']'] + rest) == Some((v, rest)),
{
    let s = json_route_items(v) + seq![']'] + rest;
    let tail = json_route_items(v.skip(1)) + seq![']'] + rest;
    assert(s =~= json_route(v[0]) + (seq![','] + tail));
    lemma_p_route(v[0], seq![','] + tail);
    let r = seq![','] + tail;
    assert(r[0] == ',');
    lemma_skip_ws_none(r);
    lemma_json_route_len(v[0]);
    assert(r.len() < s.len());
    assert(r.skip(1) =~= tail);
    assert(p_route_items(s) == Some((seq![v[0]] + v.skip(1), rest)));
    assert(seq![v[0]] + v.skip(1) =~= v);
}

/// Parsing the serialized items of a nonempty route array recovers them.
pub proof fn lemma_p_route_items(v: Seq<RouteObjectView>, rest: Seq<char>)
    requires
        v.len() >= 1,
    ensures
        p_route_items(json_route_items(v) + seq![']'] + rest) == Some((v, rest)),
    decreases v.len(),
{
    if v.len() == 1 {
        lemma_p_route_items_single(v, rest);
    } else {
        lemma_p_route_items(v.skip(1), rest);
        lemma_p_route_items_cons(v, rest);
    }
}

/// Parsing a serialized route array recovers it.
pub proof fn lemma_p_route_array(v: Seq<RouteObjectView>, rest: Seq<char>)
    ensures
        p_route_array(json_route_array(v) + rest) == Some((v, rest)),
        (json_route_array(v) + rest).len() > 0,
        (json_route_array(v) + rest)[0] == '[',
{
    reveal_strlit("[]");
    let s = json_route_array(v) + rest;
    if v.len() == 0 {
        assert(s =~= seq!['[', ']'] + rest);
        assert(s[0] == '[' && s[1] == ']');
        assert(s.skip(1) =~= seq![']'] + rest);
        lemma_skip_ws_none(seq![']'] + rest);
        assert((seq![']'] + rest)[0] == ']');
        assert((seq![']'] + rest).skip(1) =~= rest);
        assert(Seq::<RouteObjectView>::empty() =~= v);
    } else {
        lemma_json_route_len(v[0]);
        assert(json_route_items(v)[0] == json_route(v[0])[0]);
        reveal_strlit("{");
        assert(json_route(v[0])[0] == '{');
        assert(s[0] == '[');
        assert(s[1] == '{');
        assert(s.skip(1) =~= json_route_items(v) + seq![']'] + rest);
        lemma_skip_ws_none(s.skip(1));
        lemma_p_route_items(v, rest);
    }
}

pub open spec fn json_opt_routes(o: Option<Seq<RouteObjectView>>) -> Seq<char> {
    match o {
        None => "null"@,
        Some(v) => json_route_array(v),
    }
}

pub open spec fn p_opt_routes(s: Seq<char>) -> Option<
    (Option<Seq<RouteObjectView>>, Seq<char>),
> {
    match p_lit(s, "null"@) {
        Some(r) => Some((None, r)),
        None => match p_route_array(s) {
            Some((v, r)) => Some((Some(v), r)),
            None => None,
        },
    }
}

/// Parsing a serialized optional route array recovers it.
pub proof fn lemma_p_opt_routes(o: Option<Seq<RouteObjectView>>, rest: Seq<char>)
    ensures
        p_opt_routes(json_opt_routes(o) + rest) == Some((o, rest)),
{
    reveal_strlit("null");
    match o {
        None => {
            lemma_p_lit("null"@, rest);
        },
        Some(v) => {
            lemma_p_route_array(v, rest);
            lemma_p_lit_mismatch(json_route_array(v) + rest, "null"@);
        },
    }
}

/// A serialized optional scope parses after leading whitespace is dropped.
pub proof fn lemma_p_opt_scope_ws(o: Option<ProjectScope>, rest: Seq<char>)
    ensures
        p_opt_scope(skip_ws(json_opt_scope(o) + rest)) == Some((o, rest)),
{
    reveal_strlit("null");
    match o {
        None => {
            assert((json_opt_scope(o) + rest)[0] == 'n');
        },
        Some(sc) => {
            reveal_strlit("{");
            assert(json_scope(sc)[0] == '{');
            assert((json_opt_scope(o) + rest)[0] == '{');
        },
    }
    lemma_skip_ws_none(json_opt_scope(o) + rest);
    lemma_p_opt_scope(o, rest);
}

/// A serialized string array parses after leading whitespace is dropped.
pub proof fn lemma_p_string_array_ws(v: Seq<Seq<char>>, rest: Seq<char>)
    ensures
        p_string_array(skip_ws(json_string_array(v) + rest)) == Some((v, rest)),
{
    lemma_p_string_array(v, rest);
    lemma_skip_ws_none(json_string_array(v) + rest);
}

/// A serialized optional route array parses after leading whitespace is
/// dropped.
pub proof fn lemma_p_opt_routes_ws(o: Option<Seq<RouteObjectView>>, rest: Seq<char>)
    ensures
        p_opt_routes(skip_ws(json_opt_routes(o) + rest)) == Some((o, rest)),
{
    reveal_strlit("null");
    match o {
        None => {
            assert((json_opt_routes(o) + rest)[0] == 'n');
        },
        Some(v) => {
            lemma_p_route_array(v, rest);
            assert((json_opt_routes(o) + rest)[0] == '[');
        },
    }
    lemma_skip_ws_none(json_opt_routes(o) + rest);
    lemma_p_opt_routes(o, rest);
}

// ---------------------------------------------------------------------------
// The shared project state
// ---------------------------------------------------------------------------
pub open spec fn json_factsheet(f: FactSheetView) -> Seq<char> {
    "{"@ + "\"project_description\""@ + ":"@ + json_string(f.project_description) + ","@
        + "\"project_scope\""@ + ":"@ + json_opt_scope(f.project_scope) + ","@
        + "\"external_urls\""@ + ":"@ + json_string_array(f.external_urls) + ","@
        + "\"backend_code\""@ + ":"@ + json_opt_string(f.backend_code) + ","@
        + "\"api_endpoint_schema\""@ + ":"@ + json_opt_routes(f.api_endpoint_schema) + "}"@
}

/// The tail of a fact sheet, from the separator before the `external_urls`
/// key on.
pub open spec fn p_factsheet_tail(s: Seq<char>) -> Option<
    ((Seq<Seq<char>>, Option<Seq<char>>, Option<Seq<RouteObjectView>>), Seq<char>),
> {
    match p_tok(s, ","@) {
        None => None,
        Some(s1) => match p_tok(s1, "\"external_urls\""@) {
            None => None,
            Some(s2) => match p_tok(s2, ":"@) {
                None => None,
                Some(s3) => match p_string_array(skip_ws(s3)) {
                    None => None,
                    Some((urls, s4)) => match p_tok(s4, ","@) {
                        None => None,
                        Some(s5) => match p_opt_string_field(s5, "\"backend_code\""@) {
                            None => None,
                            Some((code, s6)) => match p_tok(s6, ","@) {
                                None => None,
                                Some(s7) => match p_tok(s7, "\"api_endpoint_schema\""@) {
                                    None => None,
                                    Some(s8) => match p_tok(s8, ":"@) {
                                        None => None,
                                        Some(s9) => match p_opt_routes(skip_ws(s9)) {
                                            None => None,
                                            Some((routes, s10)) => match p_tok(s10, "}"@) {
                                                None => None,
                                                Some(s11) => Some(((urls, code, routes), s11)),
                                            },
                                        },
                                    },
                                },
                            },
                        },
                    },
                },
            },
        },
    }
}

pub open spec fn p_factsheet(s: Seq<char>) -> Option<(FactSheetView, Seq<char>)> {
    match p_tok(s, "{"@) {
        None => None,
        Some(s1) => match p_string_field(s1, "\"project_description\""@) {
            None => None,
            Some((desc, s2)) => match p_tok(s2, ","@) {
                None => None,
                Some(s3) => match p_tok(s3, "\"project_scope\""@) {
                    None => None,
                    Some(s4) => match p_tok(s4, ":"@) {
                        None => None,
                        Some(s5) => match p_opt_scope(skip_ws(s5)) {
                            None => None,
                            Some((scope, s6)) => match p_factsheet_tail(s6) {
                                None => None,
                                Some(((urls, code, routes), s7)) => Some(
                                    (
                                        FactSheetView {
                                            project_description: desc,
                                            project_scope: scope,
                                            external_urls: urls,
                                            backend_code: code,
                                            api_endpoint_schema: routes,
                                        },
                                        s7,
                                    ),
                                ),
                            },
                        },
                    },
                },
            },
        },
    }
}

/// A whole serialized fact sheet: parse and insist nothing trails it.
pub open spec fn parse_factsheet_spec(s: Seq<char>) -> Option<FactSheetView> {
    match p_factsheet(s) {
        Some((f, r)) => if skip_ws(r).len() == 0 {
            Some(f)
        } else {
            None
        },
        None => None,
    }
}

/// A whole serialized project scope, for decoding a model response.
pub open spec fn parse_scope_spec(s: Seq<char>) -> Option<ProjectScope> {
    match p_scope(s) {
        Some((sc, r)) => if skip_ws(r).len() == 0 {
            Some(sc)
        } else {
            None
        },
        None => None,
    }
}

/// A whole serialized route array, for decoding a model response.
pub open spec fn parse_routes_spec(s: Seq<char>) -> Option<Seq<RouteObjectView>> {
    match p_route_array(skip_ws(s)) {
        Some((v, r)) => if skip_ws(r).len() == 0 {
            Some(v)
        } else {
            None
        },
        None => None,
    }
}

/// Parsing the serialized tail of a fact sheet recovers its three fields.
#[verifier::rlimit(100)]
pub proof fn lemma_p_factsheet_tail(
    urls: Seq<Seq<char>>,
    code: Option<Seq<char>>,
    routes: Option<Seq<RouteObjectView>>,
    rest: Seq<char>,
)
    ensures
        p_factsheet_tail(
            ","@ + ("\"external_urls\""@ + (":"@ + (json_string_array(urls) + (","@ + (
            "\"backend_code\""@ + (":"@ + (json_opt_string(code) + (","@ + (
            "\"api_endpoint_schema\""@ + (":"@ + (json_opt_routes(routes) + ("}"@
                + rest)))))))))))),
        ) == Some(((urls, code, routes), rest)),
{
    reveal_strlit(",");
    reveal_strlit(":");
    reveal_strlit("}");
    reveal_strlit("\"external_urls\"");
    reveal_strlit("\"backend_code\"");
    reveal_strlit("\"api_endpoint_schema\"");
    let t12 = "}"@ + rest;
    let t11 = json_opt_routes(routes) + t12;
    let t10 = ":"@ + t11;
    let t09 = "\"api_endpoint_schema\""@ + t10;
    let t08 = ","@ + t09;
    let f2 = "\"backend_code\""@ + (":"@ + (json_opt_string(code) + t08));
    let t05 = ","@ + f2;
    let t04 = json_string_array(urls) + t05;
    let t03 = ":"@ + t04;
    let t02 = "\"external_urls\""@ + t03;
    let f1 = ","@ + t02;
    lemma_p_tok(","@, t02);
    lemma_p_tok("\"external_urls\""@, t03);
    lemma_p_tok(":"@, t04);
    lemma_p_string_array_ws(urls, t05);
    lemma_p_tok(","@, f2);
    lemma_p_opt_string_field("\"backend_code\""@, code, t08);
    lemma_p_tok(","@, t09);
    lemma_p_tok("\"api_endpoint_schema\""@, t10);
    lemma_p_tok(":"@, t11);
    lemma_p_opt_routes_ws(routes, t12);
    lemma_p_tok("}"@, rest);
}

/// Parsing a serialized fact sheet recovers it, leaving any rest.
#[verifier::rlimit(100)]
pub proof fn lemma_p_factsheet(f: FactSheetView, rest: Seq<char>)
    ensures
        p_factsheet(json_factsheet(f) + rest) == Some((f, rest)),
{
    reveal_strlit("{");
    reveal_strlit(",");
    reveal_strlit(":");
    reveal_strlit("\"project_description\"");
    reveal_strlit("\"project_scope\"");
    let s = json_factsheet(f) + rest;
    let c01 = "{"@;
    let c02 = "\"project_description\""@;
    let c03 = ":"@;
    let c04 = json_string(f.project_description);
    let c05 = ","@;
    let c06 = "\"project_scope\""@;
    let c07 = ":"@;
    let c08 = json_opt_scope(f.project_scope);
    let c09 = ","@;
    let c10 = "\"external_urls\""@;
    let c11 = ":"@;
    let c12 = json_string_array(f.external_urls);
    let c13 = ","@;
    let c14 = "\"backend_code\""@;
    let c15 = ":"@;
    let c16 = json_opt_string(f.backend_code);
    let c17 = ","@;
    let c18 = "\"api_endpoint_schema\""@;
    let c19 = ":"@;
    let c20 = json_opt_routes(f.api_endpoint_schema);
    let c21 = "}"@;
    let l02 = c01 + c02;
    let l03 = l02 + c03;
    let l04 = l03 + c04;
    let l05 = l04 + c05;
    let l06 = l05 + c06;
    let l07 = l06 + c07;
    let l08 = l07 + c08;
    let l09 = l08 + c09;
    let l10 = l09 + c10;
    let l11 = l10 + c11;
    let l12 = l11 + c12;
    let l13 = l12 + c13;
    let l14 = l13 + c14;
    let l15 = l14 + c15;
    let l16 = l15 + c16;
    let l17 = l16 + c17;
    let l18 = l17 + c18;
    let l19 = l18 + c19;
    let l20 = l19 + c20;
    let t21 = c21 + rest;
    let t20 = c20 + t21;
    let t19 = c19 + t20;
    let t18 = c18 + t19;
    let t17 = c17 + t18;
    let t16 = c16 + t17;
    let t15 = c15 + t16;
    let t14 = c14 + t15;
    let t13 = c13 + t14;
    let t12 = c12 + t13;
    let t11 = c11 + t12;
    let t10 = c10 + t11;
    let t09 = c09 + t10;
    let t08 = c08 + t09;
    let t07 = c07 + t08;
    let t06 = c06 + t07;
    let t05 = c05 + t06;
    let t04 = c04 + t05;
    let t03 = c03 + t04;
    let t02 = c02 + t03;
    lemma_assoc(l20, c21, rest);
    lemma_assoc(l19, c20, t21);
    lemma_assoc(l18, c19, t20);
    lemma_assoc(l17, c18, t19);
    lemma_assoc(l16, c17, t18);
    lemma_assoc(l15, c16, t17);
    lemma_assoc(l14, c15, t16);
    lemma_assoc(l13, c14, t15);
    lemma_assoc(l12, c13, t14);
    lemma_assoc(l11, c12, t13);
    lemma_assoc(l10, c11, t12);
    lemma_assoc(l09, c10, t11);
    lemma_assoc(l08, c09, t10);
    lemma_assoc(l07, c08, t09);
    lemma_assoc(l06, c07, t08);
    lemma_assoc(l05, c06, t07);
    lemma_assoc(l04, c05, t06);
    lemma_assoc(l03, c04, t05);
    lemma_assoc(l02, c03, t04);
    lemma_assoc(c01, c02, t03);
    assert(s == c01 + t02);
    lemma_p_tok(c01, t02);
    lemma_p_string_field(c02, f.project_description, t05);
    lemma_p_tok(c05, t06);
    lemma_p_tok(c06, t07);
    lemma_p_tok(c07, t08);
    lemma_p_opt_scope_ws(f.project_scope, t09);
    lemma_p_factsheet_tail(f.external_urls, f.backend_code, f.api_endpoint_schema, rest);
    assert(p_factsheet_tail(t09) == Some(
        ((f.external_urls, f.backend_code, f.api_endpoint_schema), rest),
    ));
}

/// The round-trip law: serializing a shared project state and parsing the
/// result yields the state back, field for field, for every state.
pub proof fn lemma_factsheet_round_trip(f: FactSheetView)
    ensures
        parse_factsheet_spec(json_factsheet(f)) == Some(f),
{
    lemma_p_factsheet(f, Seq::empty());
    assert(json_factsheet(f) + Seq::<char>::empty() =~= json_factsheet(f));
}

/// The same round trip for a project scope on its own.
pub proof fn lemma_scope_round_trip(sc: ProjectScope)
    ensures
        parse_scope_spec(json_scope(sc)) == Some(sc),
{
    lemma_p_scope(sc, Seq::empty());
    assert(json_scope(sc) + Seq::<char>::empty() =~= json_scope(sc));
}

/// The same round trip for a route array on its own.
pub proof fn lemma_routes_round_trip(v: Seq<RouteObjectView>)
    ensures
        parse_routes_spec(json_route_array(v)) == Some(v),
{
    lemma_p_route_array(v, Seq::empty());
    assert(json_route_array(v) + Seq::<char>::empty() =~= json_route_array(v));
}

// ---------------------------------------------------------------------------
// The serializer
// ---------------------------------------------------------------------------
/// Relies on String::push: appends the given character to the end of the
/// string.
#[verifier::external_body]
fn push_char(out: &mut String, c: char)
    ensures
        final(out)@ == old(out)@ + seq![c],
{
    out.push(c);
}

/// Appending one more character extends the escaped body by its escape.
pub proof fn lemma_escaped_text_snoc(t: Seq<char>, c: char)
    ensures
        escaped_text(t.push(c)) == escaped_text(t) + escaped_char(c),
    decreases t.len(),
{
    if t.len() == 0 {
        assert(t.push(c) =~= seq![c]);
        assert(seq![c].skip(1) =~= Seq::<char>::empty());
        assert(escaped_text(Seq::<char>::empty()) == Seq::<char>::empty());
        assert(escaped_text(seq![c]) == escaped_char(c) + Seq::<char>::empty());
        assert(escaped_char(c) + Seq::<char>::empty() =~= escaped_char(c));
        assert(escaped_text(t) + escaped_char(c) =~= escaped_char(c));
    } else {
        assert(t.push(c)[0] == t[0]);
        assert(t.push(c).skip(1) =~= t.skip(1).push(c));
        lemma_escaped_text_snoc(t.skip(1), c);
        assert(escaped_char(t[0]) + (escaped_text(t.skip(1)) + escaped_char(c)) =~= (escaped_char(
            t[0],
        ) + escaped_text(t.skip(1))) + escaped_char(c));
    }
}

/// Append the escape of one character.
fn append_escaped_char(out: &mut String, c: char)
    ensures
        final(out)@ == old(out)@ + escaped_char(c),
{
    if c == '"' {
        out.append("\\\"");
        proof {
            reveal_strlit("\\\"");
            assert("\\\""@ =~= seq!['\\', '"']);
        }
    } else if c == '\\' {
        out.append("\\\\");
        proof {
            reveal_strlit("\\\\");
            assert("\\\\"@ =~= seq!['\\', '\\']);
        }
    } else if c == '\n' {
        out.append("\\n");
        proof {
            reveal_strlit("\\n");
            assert("\\n"@ =~= seq!['\\', 'n']);
        }
    } else if c == '\r' {
        out.append("\\r");
        proof {
            reveal_strlit("\\r");
            assert("\\r"@ =~= seq!['\\', 'r']);
        }
    } else if c == '\t' {
        out.append("\\t");
        proof {
            reveal_strlit("\\t");
            assert("\\t"@ =~= seq!['\\', 't']);
        }
    } else if (c as u32) < 32 {
        let code: u32 = c as u32;
        out.append("\\u00");
        push_char(out, hex_digit_of((code / 16) as u8));
        push_char(out, hex_digit_of((code % 16) as u8));
        proof {
            reveal_strlit("\\u00");
            assert("\\u00"@ =~= seq!['\\', 'u', '0', '0']);
            assert(((old(out)@ + seq!['\\', 'u', '0', '0']) + seq![
                hex_digit(((code / 16) as u8) as nat),
            ]) + seq![hex_digit(((code % 16) as u8) as nat)] =~= old(out)@ + escaped_char(c));
        }
    } else {
        push_char(out, c);
    }
}

/// Append the escaped body of a JSON string.
fn append_escaped(out: &mut String, text: &str)
    ensures
        final(out)@ == old(out)@ + escaped_text(text@),
{
    let n = text.unicode_len();
    let mut k: usize = 0;
    proof {
        assert(text@.take(0) =~= Seq::<char>::empty());
        assert(out@ + escaped_text(text@.take(0)) =~= out@);
    }
    while k < n
        invariant
            k <= n,
            n == text@.len(),
            out@ == old(out)@ + escaped_text(text@.take(k as int)),
        decreases n - k,
    {
        let c = text.get_char(k);
        proof {
            assert(text@.take(k as int + 1) =~= text@.take(k as int).push(c));
            lemma_escaped_text_snoc(text@.take(k as int), c);
        }
        append_escaped_char(out, c);
        proof {
            assert((old(out)@ + escaped_text(text@.take(k as int))) + escaped_char(c) =~= old(
                out,
            )@ + escaped_text(text@.take(k as int + 1)));
        }
        k = k + 1;
    }
    proof {
        assert(text@.take(n as int) =~= text@);
    }
}

/// Append a quoted, escaped JSON string.
fn append_json_string(out: &mut String, text: &str)
    ensures
        final(out)@ == old(out)@ + json_string(text@),
{
    out.append("\"");
    append_escaped(out, text);
    out.append("\"");
    proof {
        reveal_strlit("\"");
        assert("\""@ =~= seq!['"']);
        assert(((old(out)@ + seq!['"']) + escaped_text(text@)) + seq!['"'] =~= old(out)@
            + json_string(text@));
    }
}

/// Append a JSON boolean.
fn append_bool(out: &mut String, b: bool)
    ensures
        final(out)@ == old(out)@ + json_bool(b),
{
    if b {
        out.append("true");
    } else {
        out.append("false");
    }
}

/// Append a JSON string or `null`.
fn append_opt_string(out: &mut String, o: &Option<String>)
    ensures
        final(out)@ == old(out)@ + json_opt_string(o.deep_view()),
{
    match o {
        None => out.append("null"),
        Some(t) => append_json_string(out, t.as_str()),
    }
}

/// Appending one more item extends a nonempty item list by a comma and it.
pub proof fn lemma_json_string_items_snoc(v: Seq<Seq<char>>, t: Seq<char>)
    requires
        v.len() >= 1,
    ensures
        json_string_items(v.push(t)) == json_string_items(v) + seq![','] + json_string(t),
    decreases v.len(),
{
    if v.len() == 1 {
        assert(v.push(t)[0] == v[0]);
        assert(v.push(t).skip(1) =~= seq![t]);
        assert(json_string_items(seq![t]) == json_string(t));
    } else {
        assert(v.push(t)[0] == v[0]);
        assert(v.push(t).skip(1) =~= v.skip(1).push(t));
        lemma_json_string_items_snoc(v.skip(1), t);
        assert(json_string(v[0]) + seq![','] + (json_string_items(v.skip(1)) + seq![',']
            + json_string(t)) =~= (json_string(v[0]) + seq![','] + json_string_items(v.skip(1)))
            + seq![','] + json_string(t));
    }
}

/// Append a JSON array of strings.
fn append_string_array(out: &mut String, v: &Vec<String>)
    ensures
        final(out)@ == old(out)@ + json_string_array(v.deep_view()),
{
    let dv = Ghost(v.deep_view());
    proof {
        assert(dv@.len() == v@.len());
    }
    if v.len() == 0 {
        out.append("[]");
    } else {
        out.append("[");
        append_json_string(out, v[0].as_str());
        proof {
            reveal_strlit("[");
            assert("["@ =~= seq!['[']);
            assert(dv@[0] == v@[0]@);
            assert(dv@.take(1)[0] == dv@[0]);
            assert(json_string_items(dv@.take(1)) == json_string(dv@[0]));
            assert((old(out)@ + seq!['[']) + json_string(dv@[0]) =~= old(out)@ + (seq!['[']
                + json_string_items(dv@.take(1))));
        }
        let mut k: usize = 1;
        while k < v.len()
            invariant
                1 <= k <= v.len(),
                dv@ == v.deep_view(),
                dv@.len() == v@.len(),
                out@ == old(out)@ + (seq!['['] + json_string_items(dv@.take(k as int))),
            decreases v.len() - k,
        {
            let ghost prev = out@;
            out.append(",");
            append_json_string(out, v[k].as_str());
            proof {
                reveal_strlit(",");
                assert(","@ =~= seq![',']);
                assert(dv@[k as int] == v@[k as int]@);
                assert(dv@.take(k as int + 1) =~= dv@.take(k as int).push(dv@[k as int]));
                lemma_json_string_items_snoc(dv@.take(k as int), dv@[k as int]);
                assert((prev + seq![',']) + json_string(dv@[k as int]) =~= old(out)@ + (seq!['[']
                    + json_string_items(dv@.take(k as int + 1))));
            }
            k = k + 1;
        }
        out.append("]");
        proof {
            reveal_strlit("]");
            assert("]"@ =~= seq![']']);
            assert(dv@.take(v@.len() as int) =~= dv@);
            assert((old(out)@ + (seq!['['] + json_string_items(dv@))) + seq![']'] =~= old(out)@ + (
            seq!['['] + json_string_items(dv@) + seq![']']));
        }
    }
}

/// Append one serialized route descriptor.
#[verifier::rlimit(100)]
fn append_route(out: &mut String, r: &RouteObject)
    ensures
        final(out)@ == old(out)@ + json_route(r@),
{
    out.append("{");
    out.append("\"route\"");
    out.append(":");
    append_json_string(out, r.route.as_str());
    out.append(",");
    out.append("\"method\"");
    out.append(":");
    append_json_string(out, r.method.as_str());
    out.append(",");
    out.append("\"is_route_dynamic\"");
    out.append(":");
    append_bool(out, r.is_route_dynamic);
    out.append(",");
    out.append("\"request_body\"");
    out.append(":");
    append_opt_string(out, &r.request_body);
    out.append(",");
    out.append("\"response\"");
    out.append(":");
    append_opt_string(out, &r.response);
    out.append("}");
    proof {
        assert(final(out)@ =~= old(out)@ + json_route(r@));
    }
}

/// Appending one more route extends a nonempty item list by a comma and it.
pub proof fn lemma_json_route_items_snoc(v: Seq<RouteObjectView>, t: RouteObjectView)
    requires
        v.len() >= 1,
    ensures
        json_route_items(v.push(t)) == json_route_items(v) + seq![','] + json_route(t),
    decreases v.len(),
{
    if v.len() == 1 {
        assert(v.push(t)[0] == v[0]);
        assert(v.push(t).skip(1) =~= seq![t]);
        assert(json_route_items(seq![t]) == json_route(t));
    } else {
        assert(v.push(t)[0] == v[0]);
        assert(v.push(t).skip(1) =~= v.skip(1).push(t));
        lemma_json_route_items_snoc(v.skip(1), t);
        assert(json_route(v[0]) + seq![','] + (json_route_items(v.skip(1)) + seq![','] + json_route(
            t,
        )) =~= (json_route(v[0]) + seq![','] + json_route_items(v.skip(1))) + seq![','] + json_route(
            t,
        ));
    }
}

/// Append a JSON array of route descriptors.
fn append_route_array(out: &mut String, v: &Vec<RouteObject>)
    ensures
        final(out)@ == old(out)@ + json_route_array(v.deep_view()),
{
    let dv = Ghost(v.deep_view());
    proof {
        assert(dv@.len() == v@.len());
    }
    if v.len() == 0 {
        out.append("[]");
    } else {
        out.append("[");
        append_route(out, &v[0]);
        proof {
            reveal_strlit("[");
            assert("["@ =~= seq!['[']);
            assert(dv@[0] == v@[0]@);
            assert(dv@.take(1)[0] == dv@[0]);
            assert(json_route_items(dv@.take(1)) == json_route(dv@[0]));
            assert((old(out)@ + seq!['[']) + json_route(dv@[0]) =~= old(out)@ + (seq!['[']
                + json_route_items(dv@.take(1))));
        }
        let mut k: usize = 1;
        while k < v.len()
            invariant
                1 <= k <= v.len(),
                dv@ == v.deep_view(),
                dv@.len() == v@.len(),
                out@ == old(out)@ + (seq!['['] + json_route_items(dv@.take(k as int))),
            decreases v.len() - k,
        {
            let ghost prev = out@;
            out.append(",");
            append_route(out, &v[k]);
            proof {
                reveal_strlit(",");
                assert(","@ =~= seq![',']);
                assert(dv@[k as int] == v@[k as int]@);
                assert(dv@.take(k as int + 1) =~= dv@.take(k as int).push(dv@[k as int]));
                lemma_json_route_items_snoc(dv@.take(k as int), dv@[k as int]);
                assert((prev + seq![',']) + json_route(dv@[k as int]) =~= old(out)@ + (seq!['[']
                    + json_route_items(dv@.take(k as int + 1))));
            }
            k = k + 1;
        }
        out.append("]");
        proof {
            reveal_strlit("]");
            assert("]"@ =~= seq![']']);
            assert(dv@.take(v@.len() as int) =~= dv@);
            assert((old(out)@ + (seq!['['] + json_route_items(dv@))) + seq![']'] =~= old(out)@ + (
            seq!['['] + json_route_items(dv@) + seq![']']));
        }
    }
}

/// Append a serialized project scope or `null`.
#[verifier::rlimit(100)]
fn append_opt_scope(out: &mut String, o: &Option<ProjectScope>)
    ensures
        final(out)@ == old(out)@ + json_opt_scope(*o),
{
    match o {
        None => out.append("null"),
        Some(sc) => {
            out.append("{");
            out.append("\"is_crud_required\"");
            out.append(":");
            append_bool(out, sc.is_crud_required);
            out.append(",");
            out.append("\"is_user_login_and_logout\"");
            out.append(":");
            append_bool(out, sc.is_user_login_and_logout);
            out.append(",");
            out.append("\"is_external_urls_required\"");
            out.append(":");
            append_bool(out, sc.is_external_urls_required);
            out.append("}");
            proof {
                assert(final(out)@ =~= old(out)@ + json_scope(*sc));
            }
        },
    }
}

impl FactSheet {
    /// Serialize the shared project state: the result is exactly the
    /// canonical JSON image of the state.
    #[verifier::rlimit(100)]
    pub fn to_json(&self) -> (r: String)
        ensures
            r@ == json_factsheet(self@),
    {
        let mut out = String::new();
        out.append("{");
        out.append("\"project_description\"");
        out.append(":");
        append_json_string(&mut out, self.project_description.as_str());
        out.append(",");
        out.append("\"project_scope\"");
        out.append(":");
        append_opt_scope(&mut out, &self.project_scope);
        out.append(",");
        out.append("\"external_urls\"");
        out.append(":");
        append_string_array(&mut out, &self.external_urls);
        out.append(",");
        out.append("\"backend_code\"");
        out.append(":");
        append_opt_string(&mut out, &self.backend_code);
        out.append(",");
        out.append("\"api_endpoint_schema\"");
        out.append(":");
        match &self.api_endpoint_schema {
            None => out.append("null"),
            Some(routes) => append_route_array(&mut out, routes),
        }
        out.append("}");
        proof {
            assert(out@ =~= json_factsheet(self@));
        }
        out
    }
}

// ---------------------------------------------------------------------------
// The parser
// ---------------------------------------------------------------------------
/// Exec twin of `hex_digit`.
fn hex_digit_of(v: u8) -> (r: char)
    requires
        v < 16,
    ensures
        r == hex_digit(v as nat),
{
    if v == 0 {
        '0'
    } else if v == 1 {
        '1'
    } else if v == 2 {
        '2'
    } else if v == 3 {
        '3'
    } else if v == 4 {
        '4'
    } else if v == 5 {
        '5'
    } else if v == 6 {
        '6'
    } else if v == 7 {
        '7'
    } else if v == 8 {
        '8'
    } else if v == 9 {
        '9'
    } else if v == 10 {
        'a'
    } else if v == 11 {
        'b'
    } else if v == 12 {
        'c'
    } else if v == 13 {
        'd'
    } else if v == 14 {
        'e'
    } else {
        'f'
    }
}

/// Exec twin of `hex_value`.
fn hex_value_of(c: char) -> (r: Option<u8>)
    ensures
        match r {
            Some(v) => v < 16 && hex_value(c) == Some(v as nat),
            None => hex_value(c) is None,
        },
{
    if c == '0' {
        Some(0)
    } else if c == '1' {
        Some(1)
    } else if c == '2' {
        Some(2)
    } else if c == '3' {
        Some(3)
    } else if c == '4' {
        Some(4)
    } else if c == '5' {
        Some(5)
    } else if c == '6' {
        Some(6)
    } else if c == '7' {
        Some(7)
    } else if c == '8' {
        Some(8)
    } else if c == '9' {
        Some(9)
    } else if c == 'a' {
        Some(10)
    } else if c == 'b' {
        Some(11)
    } else if c == 'c' {
        Some(12)
    } else if c == 'd' {
        Some(13)
    } else if c == 'e' {
        Some(14)
    } else if c == 'f' {
        Some(15)
    } else {
        None
    }
}

/// Exec twin of `unescaped_char`.
fn unescape_char(c: char) -> (r: Option<char>)
    ensures
        r == unescaped_char(c),
{
    if c == '"' {
        Some('"')
    } else if c == '\\' {
        Some('\\')
    } else if c == 'n' {
        Some('\n')
    } else if c == 'r' {
        Some('\r')
    } else if c == 't' {
        Some('\t')
    } else {
        None
    }
}

/// Consume an expected literal at position `i`.
fn parse_lit(s: &str, i: usize, lit: &str) -> (r: Option<usize>)
    requires
        i <= s@.len(),
    ensures
        match r {
            Some(j) => i <= j && j <= s@.len() && j - i == lit@.len() && p_lit(
                s@.skip(i as int),
                lit@,
            ) == Some(s@.skip(j as int)),
            None => p_lit(s@.skip(i as int), lit@) is None,
        },
{
    let n = s.unicode_len();
    let ln = lit.unicode_len();
    if n - i < ln {
        return None;
    }
    let mut j: usize = 0;
    while j < ln
        invariant
            j <= ln,
            i + ln <= n,
            n == s@.len(),
            ln == lit@.len(),
            forall|m: int| 0 <= m < j ==> s@[i + m] == lit@[m],
        decreases ln - j,
    {
        if s.get_char(i + j) != lit.get_char(j) {
            proof {
                assert(s@.skip(i as int).take(ln as int)[j as int] == s@[i as int + j as int]);
                assert(s@.skip(i as int).take(ln as int) != lit@);
            }
            return None;
        }
        j = j + 1;
    }
    proof {
        assert(s@.skip(i as int).take(ln as int) =~= lit@);
        assert(s@.skip(i as int).skip(ln as int) =~= s@.skip(i as int + ln as int));
    }
    Some(i + ln)
}

/// Exec twin of `skip_ws`: the position after any leading whitespace.
fn skip_ws_at(s: &str, i: usize) -> (j: usize)
    requires
        i <= s@.len(),
    ensures
        i <= j <= s@.len(),
        s@.skip(j as int) == skip_ws(s@.skip(i as int)),
{
    let n = s.unicode_len();
    let mut k: usize = i;
    loop
        invariant
            i <= k <= n,
            n == s@.len(),
            skip_ws(s@.skip(i as int)) == skip_ws(s@.skip(k as int)),
        decreases n - k,
    {
        if k == n {
            proof {
                lemma_skip_ws_none(s@.skip(k as int));
            }
            return k;
        }
        let c = s.get_char(k);
        proof {
            assert(s@.skip(k as int)[0] == c);
        }
        if c == ' ' || c == '\n' || c == '\t' || c == '\r' {
            proof {
                assert(s@.skip(k as int).skip(1) =~= s@.skip(k as int + 1));
            }
            k = k + 1;
        } else {
            proof {
                lemma_skip_ws_none(s@.skip(k as int));
            }
            return k;
        }
    }
}

/// Consume an expected literal token at position `i`, whitespace before it
/// allowed.
fn parse_tok(s: &str, i: usize, lit: &str) -> (r: Option<usize>)
    requires
        i <= s@.len(),
    ensures
        match r {
            Some(j) => i <= j && j <= s@.len() && (lit@.len() > 0 ==> i < j) && p_tok(
                s@.skip(i as int),
                lit@,
            ) == Some(s@.skip(j as int)),
            None => p_tok(s@.skip(i as int), lit@) is None,
        },
{
    let k = skip_ws_at(s, i);
    parse_lit(s, k, lit)
}

/// The result of parsing a string body, seen past an already-consumed prefix.
spec fn string_cont(prefix: Seq<char>, s: Seq<char>) -> Option<(Seq<char>, Seq<char>)> {
    match p_string_body(s) {
        Some((t, r)) => Some((prefix + t, r)),
        None => None,
    }
}

/// Consume a quoted JSON string at position `i`.
fn parse_string(s: &str, i: usize) -> (r: Option<(String, usize)>)
    requires
        i <= s@.len(),
    ensures
        match r {
            Some((v, j)) => i < j && j <= s@.len() && p_string(s@.skip(i as int)) == Some(
                (v@, s@.skip(j as int)),
            ),
            None => p_string(s@.skip(i as int)) is None,
        },
{
    let n = s.unicode_len();
    if i == n {
        return None;
    }
    if s.get_char(i) != '"' {
        proof {
            assert(s@.skip(i as int)[0] == s@[i as int]);
        }
        return None;
    }
    let mut out = String::new();
    let mut k: usize = i + 1;
    proof {
        assert(s@.skip(i as int)[0] == s@[i as int]);
        assert(s@.skip(i as int).skip(1) =~= s@.skip(i as int + 1));
        if p_string_body(s@.skip(k as int)) is Some {
            let pair = p_string_body(s@.skip(k as int))->0;
            assert(Seq::<char>::empty() + pair.0 =~= pair.0);
        }
    }
    loop
        invariant
            i + 1 <= k <= n,
            n == s@.len(),
            p_string(s@.skip(i as int)) == string_cont(out@, s@.skip(k as int)),
        decreases n - k,
    {
        if k == n {
            proof {
                assert(s@.skip(k as int).len() == 0);
            }
            return None;
        }
        let c = s.get_char(k);
        proof {
            assert(s@.skip(k as int)[0] == c);
        }
        if c == '"' {
            proof {
                assert(s@.skip(k as int).skip(1) =~= s@.skip(k as int + 1));
                assert(out@ + Seq::<char>::empty() =~= out@);
            }
            return Some((out, k + 1));
        } else if c == '\\' {
            if k + 1 == n {
                proof {
                    assert(s@.skip(k as int).len() < 2);
                }
                return None;
            }
            let e = s.get_char(k + 1);
            proof {
                assert(s@.skip(k as int)[1] == e);
                assert(s@.skip(k as int).len() >= 2);
            }
            if e == 'u' {
                if n - k < 6 {
                    proof {
                        assert(s@.skip(k as int).len() < 6);
                    }
                    return None;
                }
                let d2 = s.get_char(k + 2);
                let d3 = s.get_char(k + 3);
                proof {
                    assert(s@.skip(k as int).len() >= 6);
                    assert(s@.skip(k as int)[2] == d2);
                    assert(s@.skip(k as int)[3] == d3);
                }
                if d2 != '0' || d3 != '0' {
                    return None;
                }
                let h1 = s.get_char(k + 4);
                let h0 = s.get_char(k + 5);
                proof {
                    assert(s@.skip(k as int)[4] == h1);
                    assert(s@.skip(k as int)[5] == h0);
                }
                let v1 = match hex_value_of(h1) {
                    Some(v) => v,
                    None => {
                        return None;
                    },
                };
                let v0 = match hex_value_of(h0) {
                    Some(v) => v,
                    None => {
                        return None;
                    },
                };
                let code: u32 = 16 * (v1 as u32) + (v0 as u32);
                proof {
                    assert(code as nat == 16 * (v1 as nat) + (v0 as nat));
                }
                if code >= 32 {
                    return None;
                }
                let c2: char = (code as u8) as char;
                proof {
                    assert(c2 == code_char(16 * (v1 as nat) + (v0 as nat)));
                    assert(s@.skip(k as int).skip(6) =~= s@.skip(k as int + 6));
                }
                let ghost prev = out@;
                push_char(&mut out, c2);
                proof {
                    if p_string_body(s@.skip(k as int + 6)) is Some {
                        let pair = p_string_body(s@.skip(k as int + 6))->0;
                        assert(prev + (seq![c2] + pair.0) =~= (prev + seq![c2]) + pair.0);
                    }
                }
                k = k + 6;
            } else {
                proof {
                    assert(s@.skip(k as int).skip(2) =~= s@.skip(k as int + 2));
                }
                match unescape_char(e) {
                    None => {
                        return None;
                    },
                    Some(c2) => {
                        let ghost prev = out@;
                        push_char(&mut out, c2);
                        proof {
                            if p_string_body(s@.skip(k as int + 2)) is Some {
                                let pair = p_string_body(s@.skip(k as int + 2))->0;
                                assert(prev + (seq![c2] + pair.0) =~= (prev + seq![c2]) + pair.0);
                            }
                        }
                        k = k + 2;
                    },
                }
            }
        } else if c != '\\' && c != '"' && (c as u32) >= 32 {
            let ghost prev = out@;
            push_char(&mut out, c);
            proof {
                assert(plain_char(c));
                assert(s@.skip(k as int).skip(1) =~= s@.skip(k as int + 1));
                if p_string_body(s@.skip(k as int + 1)) is Some {
                    let pair = p_string_body(s@.skip(k as int + 1))->0;
                    assert(prev + (seq![c] + pair.0) =~= (prev + seq![c]) + pair.0);
                }
            }
            k = k + 1;
        } else {
            proof {
                assert(!plain_char(c));
            }
            return None;
        }
    }
}

/// Consume a JSON boolean at position `i`.
fn parse_bool(s: &str, i: usize) -> (r: Option<(bool, usize)>)
    requires
        i <= s@.len(),
    ensures
        match r {
            Some((b, j)) => i < j && j <= s@.len() && p_bool(s@.skip(i as int)) == Some(
                (b, s@.skip(j as int)),
            ),
            None => p_bool(s@.skip(i as int)) is None,
        },
{
    match parse_lit(s, i, "true") {
        Some(j) => {
            proof {
                reveal_strlit("true");
            }
            Some((true, j))
        },
        None => match parse_lit(s, i, "false") {
            Some(j) => {
                proof {
                    reveal_strlit("false");
                }
                Some((false, j))
            },
            None => None,
        },
    }
}

/// Consume a JSON string or `null` at position `i`.
fn parse_opt_string(s: &str, i: usize) -> (r: Option<(Option<String>, usize)>)
    requires
        i <= s@.len(),
    ensures
        match r {
            Some((o, j)) => i < j && j <= s@.len() && p_opt_string(s@.skip(i as int)) == Some(
                (o.deep_view(), s@.skip(j as int)),
            ),
            None => p_opt_string(s@.skip(i as int)) is None,
        },
{
    match parse_lit(s, i, "null") {
        Some(j) => {
            proof {
                reveal_strlit("null");
            }
            Some((None, j))
        },
        None => match parse_string(s, i) {
            Some((t, j)) => Some((Some(t), j)),
            None => None,
        },
    }
}

/// The result of parsing string array items, seen past consumed items.
spec fn string_items_cont(prefix: Seq<Seq<char>>, s: Seq<char>) -> Option<
    (Seq<Seq<char>>, Seq<char>),
> {
    match p_string_items(s) {
        Some((vs, r)) => Some((prefix + vs, r)),
        None => None,
    }
}

/// Consume a JSON array of strings at position `i`.
fn parse_string_array(s: &str, i: usize) -> (r: Option<(Vec<String>, usize)>)
    requires
        i <= s@.len(),
    ensures
        match r {
            Some((v, j)) => i < j && j <= s@.len() && p_string_array(s@.skip(i as int)) == Some(
                (v.deep_view(), s@.skip(j as int)),
            ),
            None => p_string_array(s@.skip(i as int)) is None,
        },
{
    let n = s.unicode_len();
    if i == n {
        return None;
    }
    if s.get_char(i) != '[' {
        proof {
            assert(s@.skip(i as int)[0] == s@[i as int]);
        }
        return None;
    }
    proof {
        assert(s@.skip(i as int)[0] == s@[i as int]);
        assert(s@.skip(i as int).skip(1) =~= s@.skip(i as int + 1));
    }
    let k1 = skip_ws_at(s, i + 1);
    if k1 < n && s.get_char(k1) == ']' {
        let v: Vec<String> = Vec::new();
        proof {
            assert(s@.skip(k1 as int)[0] == s@[k1 as int]);
            assert(s@.skip(k1 as int).skip(1) =~= s@.skip(k1 as int + 1));
            assert(v.deep_view() =~= Seq::<Seq<char>>::empty());
        }
        return Some((v, k1 + 1));
    }
    proof {
        if k1 < n {
            assert(s@.skip(k1 as int)[0] == s@[k1 as int]);
        }
    }
    let mut acc: Vec<String> = Vec::new();
    let mut k: usize = i + 1;
    proof {
        if p_string_items(s@.skip(k as int)) is Some {
            let pair = p_string_items(s@.skip(k as int))->0;
            assert(Seq::<Seq<char>>::empty() + pair.0 =~= pair.0);
        }
        assert(acc.deep_view() =~= Seq::<Seq<char>>::empty());
    }
    loop
        invariant
            i + 1 <= k <= n,
            n == s@.len(),
            p_string_array(s@.skip(i as int)) == string_items_cont(
                acc.deep_view(),
                s@.skip(k as int),
            ),
        decreases n - k,
    {
        let ke = skip_ws_at(s, k);
        match parse_string(s, ke) {
            None => {
                return None;
            },
            Some((t, j)) => {
                let ghost prev = acc.deep_view();
                let ghost tv = t@;
                acc.push(t);
                proof {
                    assert(acc.deep_view() =~= prev.push(tv));
                }
                let jr = skip_ws_at(s, j);
                if jr == n {
                    proof {
                        assert(s@.skip(jr as int).len() == 0);
                    }
                    return None;
                }
                let c = s.get_char(jr);
                proof {
                    assert(s@.skip(jr as int)[0] == c);
                }
                if c == ',' {
                    proof {
                        assert(s@.skip(jr as int).len() < s@.skip(k as int).len());
                        assert(s@.skip(jr as int).skip(1) =~= s@.skip(jr as int + 1));
                        if p_string_items(s@.skip(jr as int + 1)) is Some {
                            let pair = p_string_items(s@.skip(jr as int + 1))->0;
                            assert(prev + (seq![tv] + pair.0) =~= prev.push(tv) + pair.0);
                        }
                    }
                    k = jr + 1;
                } else if c == ']' {
                    proof {
                        assert(s@.skip(jr as int).skip(1) =~= s@.skip(jr as int + 1));
                        assert(prev + seq![tv] =~= prev.push(tv));
                    }
                    return Some((acc, jr + 1));
                } else {
                    return None;
                }
            },
        }
    }
}

/// Consume one `"key": bool` field at position `i`.
fn parse_bool_field(s: &str, i: usize, key: &str) -> (r: Option<(bool, usize)>)
    requires
        i <= s@.len(),
    ensures
        match r {
            Some((b, j)) => i <= j && j <= s@.len() && p_bool_field(s@.skip(i as int), key@)
                == Some((b, s@.skip(j as int))),
            None => p_bool_field(s@.skip(i as int), key@) is None,
        },
{
    let j1 = match parse_tok(s, i, key) {
        Some(j) => j,
        None => {
            return None;
        },
    };
    let j2 = match parse_tok(s, j1, ":") {
        Some(j) => j,
        None => {
            return None;
        },
    };
    let k = skip_ws_at(s, j2);
    parse_bool(s, k)
}

/// Consume a project scope object at position `i`.
#[verifier::rlimit(100)]
fn parse_scope_at(s: &str, i: usize) -> (r: Option<(ProjectScope, usize)>)
    requires
        i <= s@.len(),
    ensures
        match r {
            Some((sc, j)) => i < j && j <= s@.len() && p_scope(s@.skip(i as int)) == Some(
                (sc, s@.skip(j as int)),
            ),
            None => p_scope(s@.skip(i as int)) is None,
        },
{
    let j1 = match parse_tok(s, i, "{") {
        Some(j) => j,
        None => {
            return None;
        },
    };
    let (crud, j2) = match parse_bool_field(s, j1, "\"is_crud_required\"") {
        Some(p) => p,
        None => {
            return None;
        },
    };
    let j3 = match parse_tok(s, j2, ",") {
        Some(j) => j,
        None => {
            return None;
        },
    };
    let (login, j4) = match parse_bool_field(s, j3, "\"is_user_login_and_logout\"") {
        Some(p) => p,
        None => {
            return None;
        },
    };
    let j5 = match parse_tok(s, j4, ",") {
        Some(j) => j,
        None => {
            return None;
        },
    };
    let (urls, j6) = match parse_bool_field(s, j5, "\"is_external_urls_required\"") {
        Some(p) => p,
        None => {
            return None;
        },
    };
    let j7 = match parse_tok(s, j6, "}") {
        Some(j) => j,
        None => {
            return None;
        },
    };
    proof {
        reveal_strlit("{");
    }
    Some(
        (
            ProjectScope {
                is_crud_required: crud,
                is_user_login_and_logout: login,
                is_external_urls_required: urls,
            },
            j7,
        ),
    )
}

/// Consume a project scope object or `null` at position `i`.
fn parse_opt_scope(s: &str, i: usize) -> (r: Option<(Option<ProjectScope>, usize)>)
    requires
        i <= s@.len(),
    ensures
        match r {
            Some((o, j)) => i < j && j <= s@.len() && p_opt_scope(s@.skip(i as int)) == Some(
                (o, s@.skip(j as int)),
            ),
            None => p_opt_scope(s@.skip(i as int)) is None,
        },
{
    match parse_lit(s, i, "null") {
        Some(j) => {
            proof {
                reveal_strlit("null");
            }
            Some((None, j))
        },
        None => match parse_scope_at(s, i) {
            Some((sc, j)) => Some((Some(sc), j)),
            None => None,
        },
    }
}

/// Consume one `"key": string` field at position `i`.
fn parse_string_field(s: &str, i: usize, key: &str) -> (r: Option<(String, usize)>)
    requires
        i <= s@.len(),
    ensures
        match r {
            Some((t, j)) => i <= j && j <= s@.len() && p_string_field(s@.skip(i as int), key@)
                == Some((t@, s@.skip(j as int))),
            None => p_string_field(s@.skip(i as int), key@) is None,
        },
{
    let j1 = match parse_tok(s, i, key) {
        Some(j) => j,
        None => {
            return None;
        },
    };
    let j2 = match parse_tok(s, j1, ":") {
        Some(j) => j,
        None => {
            return None;
        },
    };
    let k = skip_ws_at(s, j2);
    parse_string(s, k)
}

/// Consume one `"key": string-or-null` field at position `i`.
fn parse_opt_string_field(s: &str, i: usize, key: &str) -> (r: Option<(Option<String>, usize)>)
    requires
        i <= s@.len(),
    ensures
        match r {
            Some((o, j)) => i <= j && j <= s@.len() && p_opt_string_field(s@.skip(i as int), key@)
                == Some((o.deep_view(), s@.skip(j as int))),
            None => p_opt_string_field(s@.skip(i as int), key@) is None,
        },
{
    let j1 = match parse_tok(s, i, key) {
        Some(j) => j,
        None => {
            return None;
        },
    };
    let j2 = match parse_tok(s, j1, ":") {
        Some(j) => j,
        None => {
            return None;
        },
    };
    let k = skip_ws_at(s, j2);
    parse_opt_string(s, k)
}

/// Consume a route object at position `i`.
#[verifier::rlimit(100)]
fn parse_route_at(s: &str, i: usize) -> (r: Option<(RouteObject, usize)>)
    requires
        i <= s@.len(),
    ensures
        match r {
            Some((ro, j)) => i < j && j <= s@.len() && p_route(s@.skip(i as int)) == Some(
                (ro@, s@.skip(j as int)),
            ),
            None => p_route(s@.skip(i as int)) is None,
        },
{
    let j1 = match parse_tok(s, i, "{") {
        Some(j) => j,
        None => {
            return None;
        },
    };
    let (route, j2) = match parse_string_field(s, j1, "\"route\"") {
        Some(p) => p,
        None => {
            return None;
        },
    };
    let j3 = match parse_tok(s, j2, ",") {
        Some(j) => j,
        None => {
            return None;
        },
    };
    let (method, j4) = match parse_string_field(s, j3, "\"method\"") {
        Some(p) => p,
        None => {
            return None;
        },
    };
    let j5 = match parse_tok(s, j4, ",") {
        Some(j) => j,
        None => {
            return None;
        },
    };
    let (dynamic, j6) = match parse_bool_field(s, j5, "\"is_route_dynamic\"") {
        Some(p) => p,
        None => {
            return None;
        },
    };
    let j7 = match parse_tok(s, j6, ",") {
        Some(j) => j,
        None => {
            return None;
        },
    };
    let (body, j8) = match parse_opt_string_field(s, j7, "\"request_body\"") {
        Some(p) => p,
        None => {
            return None;
        },
    };
    let j9 = match parse_tok(s, j8, ",") {
        Some(j) => j,
        None => {
            return None;
        },
    };
    let (resp, j10) = match parse_opt_string_field(s, j9, "\"response\"") {
        Some(p) => p,
        None => {
            return None;
        },
    };
    let j11 = match parse_tok(s, j10, "}") {
        Some(j) => j,
        None => {
            return None;
        },
    };
    proof {
        reveal_strlit("{");
    }
    let ro = RouteObject {
        route,
        method,
        is_route_dynamic: dynamic,
        request_body: body,
        response: resp,
    };
    Some((ro, j11))
}

/// The result of parsing route array items, seen past consumed items.
spec fn route_items_cont(prefix: Seq<RouteObjectView>, s: Seq<char>) -> Option<
    (Seq<RouteObjectView>, Seq<char>),
> {
    match p_route_items(s) {
        Some((vs, r)) => Some((prefix + vs, r)),
        None => None,
    }
}

/// Consume a JSON array of route objects at position `i`.
fn parse_route_array(s: &str, i: usize) -> (r: Option<(Vec<RouteObject>, usize)>)
    requires
        i <= s@.len(),
    ensures
        match r {
            Some((v, j)) => i < j && j <= s@.len() && p_route_array(s@.skip(i as int)) == Some(
                (v.deep_view(), s@.skip(j as int)),
            ),
            None => p_route_array(s@.skip(i as int)) is None,
        },
{
    let n = s.unicode_len();
    if i == n {
        return None;
    }
    if s.get_char(i) != '[' {
        proof {
            assert(s@.skip(i as int)[0] == s@[i as int]);
        }
        return None;
    }
    proof {
        assert(s@.skip(i as int)[0] == s@[i as int]);
        assert(s@.skip(i as int).skip(1) =~= s@.skip(i as int + 1));
    }
    let k1 = skip_ws_at(s, i + 1);
    if k1 < n && s.get_char(k1) == ']' {
        let v: Vec<RouteObject> = Vec::new();
        proof {
            assert(s@.skip(k1 as int)[0] == s@[k1 as int]);
            assert(s@.skip(k1 as int).skip(1) =~= s@.skip(k1 as int + 1));
            assert(v.deep_view() =~= Seq::<RouteObjectView>::empty());
        }
        return Some((v, k1 + 1));
    }
    proof {
        if k1 < n {
            assert(s@.skip(k1 as int)[0] == s@[k1 as int]);
        }
    }
    let mut acc: Vec<RouteObject> = Vec::new();
    let mut k: usize = i + 1;
    proof {
        if p_route_items(s@.skip(k as int)) is Some {
            let pair = p_route_items(s@.skip(k as int))->0;
            assert(Seq::<RouteObjectView>::empty() + pair.0 =~= pair.0);
        }
        assert(acc.deep_view() =~= Seq::<RouteObjectView>::empty());
    }
    loop
        invariant
            i + 1 <= k <= n,
            n == s@.len(),
            p_route_array(s@.skip(i as int)) == route_items_cont(
                acc.deep_view(),
                s@.skip(k as int),
            ),
        decreases n - k,
    {
        match parse_route_at(s, k) {
            None => {
                return None;
            },
            Some((ro, j)) => {
                let ghost prev = acc.deep_view();
                let ghost rv = ro@;
                acc.push(ro);
                proof {
                    assert(acc.deep_view() =~= prev.push(rv));
                }
                let jr = skip_ws_at(s, j);
                if jr == n {
                    proof {
                        assert(s@.skip(jr as int).len() == 0);
                    }
                    return None;
                }
                let c = s.get_char(jr);
                proof {
                    assert(s@.skip(jr as int)[0] == c);
                }
                if c == ',' {
                    proof {
                        assert(s@.skip(jr as int).len() < s@.skip(k as int).len());
                        assert(s@.skip(jr as int).skip(1) =~= s@.skip(jr as int + 1));
                        if p_route_items(s@.skip(jr as int + 1)) is Some {
                            let pair = p_route_items(s@.skip(jr as int + 1))->0;
                            assert(prev + (seq![rv] + pair.0) =~= prev.push(rv) + pair.0);
                        }
                    }
                    k = jr + 1;
                } else if c == ']' {
                    proof {
                        assert(s@.skip(jr as int).skip(1) =~= s@.skip(jr as int + 1));
                        assert(prev + seq![rv] =~= prev.push(rv));
                    }
                    return Some((acc, jr + 1));
                } else {
                    return None;
                }
            },
        }
    }
}

/// Consume a route array or `null` at position `i`.
fn parse_opt_routes(s: &str, i: usize) -> (r: Option<(Option<Vec<RouteObject>>, usize)>)
    requires
        i <= s@.len(),
    ensures
        match r {
            Some((o, j)) => i < j && j <= s@.len() && p_opt_routes(s@.skip(i as int)) == Some(
                (
                    match o {
                        Some(v) => Some(v.deep_view()),
                        None => None,
                    },
                    s@.skip(j as int),
                ),
            ),
            None => p_opt_routes(s@.skip(i as int)) is None,
        },
{
    match parse_lit(s, i, "null") {
        Some(j) => {
            proof {
                reveal_strlit("null");
            }
            Some((None, j))
        },
        None => match parse_route_array(s, i) {
            Some((v, j)) => Some((Some(v), j)),
            None => None,
        },
    }
}

/// Consume a whole fact sheet object at position `i`.
#[verifier::rlimit(100)]
fn parse_factsheet_at(s: &str, i: usize) -> (r: Option<(FactSheet, usize)>)
    requires
        i <= s@.len(),
    ensures
        match r {
            Some((f, j)) => i < j && j <= s@.len() && p_factsheet(s@.skip(i as int)) == Some(
                (f@, s@.skip(j as int)),
            ),
            None => p_factsheet(s@.skip(i as int)) is None,
        },
{
    let j1 = match parse_tok(s, i, "{") {
        Some(j) => j,
        None => {
            return None;
        },
    };
    let (desc, j2) = match parse_string_field(s, j1, "\"project_description\"") {
        Some(p) => p,
        None => {
            return None;
        },
    };
    let j3 = match parse_tok(s, j2, ",") {
        Some(j) => j,
        None => {
            return None;
        },
    };
    let j4 = match parse_tok(s, j3, "\"project_scope\"") {
        Some(j) => j,
        None => {
            return None;
        },
    };
    let j5 = match parse_tok(s, j4, ":") {
        Some(j) => j,
        None => {
            return None;
        },
    };
    let k5 = skip_ws_at(s, j5);
    let (scope, j6) = match parse_opt_scope(s, k5) {
        Some(p) => p,
        None => {
            return None;
        },
    };
    let j7 = match parse_tok(s, j6, ",") {
        Some(j) => j,
        None => {
            return None;
        },
    };
    let j8 = match parse_tok(s, j7, "\"external_urls\"") {
        Some(j) => j,
        None => {
            return None;
        },
    };
    let j9 = match parse_tok(s, j8, ":") {
        Some(j) => j,
        None => {
            return None;
        },
    };
    let k9 = skip_ws_at(s, j9);
    let (urls, j10) = match parse_string_array(s, k9) {
        Some(p) => p,
        None => {
            return None;
        },
    };
    let j11 = match parse_tok(s, j10, ",") {
        Some(j) => j,
        None => {
            return None;
        },
    };
    let (code, j12) = match parse_opt_string_field(s, j11, "\"backend_code\"") {
        Some(p) => p,
        None => {
            return None;
        },
    };
    let j13 = match parse_tok(s, j12, ",") {
        Some(j) => j,
        None => {
            return None;
        },
    };
    let j14 = match parse_tok(s, j13, "\"api_endpoint_schema\"") {
        Some(j) => j,
        None => {
            return None;
        },
    };
    let j15 = match parse_tok(s, j14, ":") {
        Some(j) => j,
        None => {
            return None;
        },
    };
    let k15 = skip_ws_at(s, j15);
    let (routes, j16) = match parse_opt_routes(s, k15) {
        Some(p) => p,
        None => {
            return None;
        },
    };
    let j17 = match parse_tok(s, j16, "}") {
        Some(j) => j,
        None => {
            return None;
        },
    };
    proof {
        reveal_strlit("{");
    }
    let f = FactSheet {
        project_description: desc,
        project_scope: scope,
        external_urls: urls,
        backend_code: code,
        api_endpoint_schema: routes,
    };
    Some((f, j17))
}

impl FactSheet {
    /// Parse a whole serialized fact sheet. Insignificant whitespace is
    /// accepted anywhere between tokens; anything else off the grammar is a
    /// decode error.
    pub fn from_json(s: &str) -> (r: Result<FactSheet, FatalError>)
        ensures
            match r {
                Ok(f) => parse_factsheet_spec(s@) == Some(f@),
                Err(e) => e == FatalError::DecodeError && parse_factsheet_spec(s@) is None,
            },
    {
        let n = s.unicode_len();
        proof {
            assert(s@.skip(0) =~= s@);
        }
        match parse_factsheet_at(s, 0) {
            Some((f, j)) => {
                let j2 = skip_ws_at(s, j);
                if j2 == n {
                    proof {
                        assert(skip_ws(s@.skip(j as int)).len() == 0);
                    }
                    Ok(f)
                } else {
                    proof {
                        assert(skip_ws(s@.skip(j as int)).len() > 0);
                    }
                    Err(FatalError::DecodeError)
                }
            },
            None => Err(FatalError::DecodeError),
        }
    }
}

/// Decode a model response that must be one project scope object, with any
/// insignificant whitespace around its tokens. Anything else is a fatal
/// decode error, never retried.
pub fn parse_project_scope(response: &str) -> (r: Result<ProjectScope, FatalError>)
    ensures
        match r {
            Ok(sc) => parse_scope_spec(response@) == Some(sc),
            Err(e) => e == FatalError::DecodeError && parse_scope_spec(response@) is None,
        },
{
    let n = response.unicode_len();
    proof {
        assert(response@.skip(0) =~= response@);
    }
    match parse_scope_at(response, 0) {
        Some((sc, j)) => {
            let j2 = skip_ws_at(response, j);
            if j2 == n {
                proof {
                    assert(skip_ws(response@.skip(j as int)).len() == 0);
                }
                Ok(sc)
            } else {
                proof {
                    assert(skip_ws(response@.skip(j as int)).len() > 0);
                }
                Err(FatalError::DecodeError)
            }
        },
        None => Err(FatalError::DecodeError),
    }
}

/// A whole serialized string array, for decoding a model response.
pub open spec fn parse_urls_spec(s: Seq<char>) -> Option<Seq<Seq<char>>> {
    match p_string_array(skip_ws(s)) {
        Some((v, r)) => if skip_ws(r).len() == 0 {
            Some(v)
        } else {
            None
        },
        None => None,
    }
}

/// Decode a model response that must be one array of URL strings, with any
/// insignificant whitespace around its tokens.
pub fn parse_external_urls(response: &str) -> (r: Result<Vec<String>, FatalError>)
    ensures
        match r {
            Ok(v) => parse_urls_spec(response@) == Some(v.deep_view()),
            Err(e) => e == FatalError::DecodeError && parse_urls_spec(response@) is None,
        },
{
    let n = response.unicode_len();
    proof {
        assert(response@.skip(0) =~= response@);
    }
    let start = skip_ws_at(response, 0);
    match parse_string_array(response, start) {
        Some((v, j)) => {
            let j2 = skip_ws_at(response, j);
            if j2 == n {
                proof {
                    assert(skip_ws(response@.skip(j as int)).len() == 0);
                }
                Ok(v)
            } else {
                proof {
                    assert(skip_ws(response@.skip(j as int)).len() > 0);
                }
                Err(FatalError::DecodeError)
            }
        },
        None => Err(FatalError::DecodeError),
    }
}

/// Decode a model response that must be one route array, with any
/// insignificant whitespace around its tokens.
pub fn parse_route_objects(response: &str) -> (r: Result<Vec<RouteObject>, FatalError>)
    ensures
        match r {
            Ok(v) => parse_routes_spec(response@) == Some(v.deep_view()),
            Err(e) => e == FatalError::DecodeError && parse_routes_spec(response@) is None,
        },
{
    let n = response.unicode_len();
    proof {
        assert(response@.skip(0) =~= response@);
    }
    let start = skip_ws_at(response, 0);
    match parse_route_array(response, start) {
        Some((v, j)) => {
            let j2 = skip_ws_at(response, j);
            if j2 == n {
                proof {
                    assert(skip_ws(response@.skip(j as int)).len() == 0);
                }
                Ok(v)
            } else {
                proof {
                    assert(skip_ws(response@.skip(j as int)).len() > 0);
                }
                Err(FatalError::DecodeError)
            }
        },
        None => Err(FatalError::DecodeError),
    }
}

} // verus!
