//! A small JSON codec: the credential file and the client-secret file are
//! JSON, and the library parses and renders them itself so that the
//! round-trip behaviour can be stated and proved.
//!
//! The model value [`JVal`] and the specification-level parser here define
//! what a text means; executable parsers elsewhere are proved to agree with
//! them. Numbers are signed 64-bit integers: a fractional or exponent form
//! is not a valid number for this codec (none of the records it reads or
//! writes holds one).

use vstd::prelude::*;

verus! {

/// A JSON value, at the specification level.
///
/// `Int` holds the parsed integer; `Str` holds the decoded characters,
/// after escape processing.
pub enum JVal {
    Null,
    Bool(bool),
    Int(i64),
    Str(Seq<char>),
    Arr(Seq<JVal>),
    Obj(Seq<(Seq<char>, JVal)>),
}

// ---------------------------------------------------------------------------
// Character classes
// ---------------------------------------------------------------------------
pub open spec fn is_ws(c: char) -> bool {
    c == ' ' || c == '\n' || c == '\r' || c == '\t'
}

pub open spec fn is_digit(c: char) -> bool {
    48 <= c as u32 <= 57
}

pub open spec fn digit_val(c: char) -> int {
    c as u32 - 48
}

/// Value of a hexadecimal digit, if the character is one.
pub open spec fn hex_val(c: char) -> Option<int> {
    if 48 <= c as u32 <= 57 {
        Some(c as u32 - 48)
    } else if 97 <= c as u32 <= 102 {
        Some(c as u32 - 87)
    } else if 65 <= c as u32 <= 70 {
        Some(c as u32 - 55)
    } else {
        None
    }
}

/// What a short escape `\x` stands for.
pub open spec fn short_escape(c: char) -> Option<char> {
    if c == '"' {
        Some('"')
    } else if c == '\\' {
        Some('\\')
    } else if c == '/' {
        Some('/')
    } else if c == 'b' {
        Some(8 as char)
    } else if c == 'f' {
        Some(12 as char)
    } else if c == 'n' {
        Some('\n')
    } else if c == 'r' {
        Some('\r')
    } else if c == 't' {
        Some('\t')
    } else {
        None
    }
}

// ---------------------------------------------------------------------------
// Specification-level parser
//
// Every function takes the whole text and a position, and returns the parsed
// item with the position just after it, or `None` when the text does not
// match. Bounds guards double as progress guards for termination.
// ---------------------------------------------------------------------------
/// First position at or after `i` that does not hold whitespace.
pub open spec fn ws_end(s: Seq<char>, i: int) -> int
    decreases s.len() - i,
{
    if 0 <= i < s.len() && is_ws(s[i]) {
        ws_end(s, i + 1)
    } else {
        i
    }
}

pub proof fn lemma_ws_end_bounds(s: Seq<char>, i: int)
    requires
        0 <= i <= s.len(),
    ensures
        i <= ws_end(s, i) <= s.len(),
    decreases s.len() - i,
{
    if i < s.len() && is_ws(s[i]) {
        lemma_ws_end_bounds(s, i + 1);
    }
}

/// First position at or after `i` that does not hold a decimal digit.
pub open spec fn digits_end(s: Seq<char>, i: int) -> int
    decreases s.len() - i,
{
    if 0 <= i < s.len() && is_digit(s[i]) {
        digits_end(s, i + 1)
    } else {
        i
    }
}

pub proof fn lemma_digits_end_bounds(s: Seq<char>, i: int)
    requires
        0 <= i <= s.len(),
    ensures
        i <= digits_end(s, i) <= s.len(),
    decreases s.len() - i,
{
    if i < s.len() && is_digit(s[i]) {
        lemma_digits_end_bounds(s, i + 1);
    }
}

/// Value of the digit run `s[i..j]`, read as a decimal number.
pub open spec fn digits_val(s: Seq<char>, i: int, j: int) -> int
    decreases j - i,
{
    if i < j {
        digits_val(s, i, j - 1) * 10 + digit_val(s[j - 1])
    } else {
        0
    }
}

/// Parse an optionally signed decimal integer that fits in `i64`.
pub open spec fn parse_int(s: Seq<char>, i: int) -> Option<(i64, int)> {
    let neg = 0 <= i < s.len() && s[i] == '-';
    let d0 = if neg {
        i + 1
    } else {
        i
    };
    let j = digits_end(s, d0);
    if j == d0 {
        None
    } else {
        let m = digits_val(s, d0, j);
        let v = if neg {
            -m
        } else {
            m
        };
        if i64::MIN <= v <= i64::MAX {
            Some((v as i64, j))
        } else {
            None
        }
    }
}

/// Parse the four hex digits of a `\u` escape.
pub open spec fn hex4_val(s: Seq<char>, i: int) -> Option<int> {
    if 0 <= i && i + 4 <= s.len() {
        match (hex_val(s[i]), hex_val(s[i + 1]), hex_val(s[i + 2]), hex_val(s[i + 3])) {
            (Some(a), Some(b), Some(c), Some(d)) => Some(a * 4096 + b * 256 + c * 16 + d),
            _ => None,
        }
    } else {
        None
    }
}

/// Parse the body of a string, starting just after the opening quote;
/// returns the decoded characters and the position after the closing quote.
pub open spec fn parse_string_body(s: Seq<char>, i: int) -> Option<(Seq<char>, int)>
    decreases s.len() - i,
{
    if !(0 <= i < s.len()) {
        None
    } else {
        let c = s[i];
        if c == '"' {
            Some((Seq::empty(), i + 1))
        } else if c == '\\' {
            if i + 1 < s.len() {
                let e = s[i + 1];
                if e == 'u' {
                    match hex4_val(s, i + 2) {
                        Some(v) => if v < 0xD800 || 0xE000 <= v {
                            match parse_string_body(s, i + 6) {
                                Some((t, j)) => Some((seq![(v as char)] + t, j)),
                                None => None,
                            }
                        } else {
                            None
                        },
                        None => None,
                    }
                } else {
                    match short_escape(e) {
                        Some(d) => match parse_string_body(s, i + 2) {
                            Some((t, j)) => Some((seq![d] + t, j)),
                            None => None,
                        },
                        None => None,
                    }
                }
            } else {
                None
            }
        } else if (c as u32) < 0x20 {
            None
        } else {
            match parse_string_body(s, i + 1) {
                Some((t, j)) => Some((seq![c] + t, j)),
                None => None,
            }
        }
    }
}

/// Parse a quoted string at `i`.
pub open spec fn parse_string(s: Seq<char>, i: int) -> Option<(Seq<char>, int)> {
    if 0 <= i < s.len() && s[i] == '"' {
        parse_string_body(s, i + 1)
    } else {
        None
    }
}

/// Does the literal word `w` stand at `i`?
pub open spec fn lit_at(s: Seq<char>, i: int, w: Seq<char>) -> bool {
    0 <= i && i + w.len() <= s.len() && s.subrange(i, i + w.len()) == w
}

/// Parse any JSON value whose text starts (after whitespace) at `i`.
pub open spec fn parse_value(s: Seq<char>, i: int) -> Option<(JVal, int)>
    decreases s.len() - i, 0int,
{
    let j = ws_end(s, i);
    if !(i <= j && j < s.len()) {
        None
    } else {
        let c = s[j];
        if c == '{' {
            match parse_members(s, j + 1) {
                Some((ms, k)) => Some((JVal::Obj(ms), k)),
                None => None,
            }
        } else if c == '[' {
            match parse_elements(s, j + 1) {
                Some((es, k)) => Some((JVal::Arr(es), k)),
                None => None,
            }
        } else if c == '"' {
            match parse_string_body(s, j + 1) {
                Some((t, k)) => Some((JVal::Str(t), k)),
                None => None,
            }
        } else if c == 'n' {
            if lit_at(s, j, seq!['n', 'u', 'l', 'l']) {
                Some((JVal::Null, j + 4))
            } else {
                None
            }
        } else if c == 't' {
            if lit_at(s, j, seq!['t', 'r', 'u', 'e']) {
                Some((JVal::Bool(true), j + 4))
            } else {
                None
            }
        } else if c == 'f' {
            if lit_at(s, j, seq!['f', 'a', 'l', 's', 'e']) {
                Some((JVal::Bool(false), j + 5))
            } else {
                None
            }
        } else if c == '-' || is_digit(c) {
            match parse_int(s, j) {
                Some((v, k)) => Some((JVal::Int(v), k)),
                None => None,
            }
        } else {
            None
        }
    }
}

/// Parse what follows an object's `{`: either `}` or a member list.
pub open spec fn parse_members(s: Seq<char>, i: int) -> Option<(Seq<(Seq<char>, JVal)>, int)>
    decreases s.len() - i, 2int,
{
    let j = ws_end(s, i);
    if !(i <= j && j < s.len()) {
        None
    } else if s[j] == '}' {
        Some((Seq::empty(), j + 1))
    } else {
        parse_member_list(s, i)
    }
}

/// Parse one or more `"key": value` members followed by `}`.
pub open spec fn parse_member_list(s: Seq<char>, i: int) -> Option<(Seq<(Seq<char>, JVal)>, int)>
    decreases s.len() - i, 1int,
{
    let j1 = ws_end(s, i);
    if !(i <= j1) {
        None
    } else {
        match parse_string(s, j1) {
            None => None,
            Some((key, j2)) => {
                let j3 = ws_end(s, j2);
                if !(j2 <= j3 && j3 < s.len() && s[j3] == ':') {
                    None
                } else {
                    let j4 = j3 + 1;
                    if !(i < j4 && j4 <= s.len()) {
                        None
                    } else {
                        match parse_value(s, j4) {
                            None => None,
                            Some((v, j5)) => {
                                let j6 = ws_end(s, j5);
                                if !(j5 <= j6 && j6 < s.len()) {
                                    None
                                } else if s[j6] == '}' {
                                    Some((seq![(key, v)], j6 + 1))
                                } else if s[j6] == ',' {
                                    let j7 = j6 + 1;
                                    if !(i < j7 && j7 <= s.len()) {
                                        None
                                    } else {
                                        match parse_member_list(s, j7) {
                                            None => None,
                                            Some((rest, j8)) => Some((seq![(key, v)] + rest, j8)),
                                        }
                                    }
                                } else {
                                    None
                                }
                            },
                        }
                    }
                }
            },
        }
    }
}

/// Parse what follows an array's `[`: either `]` or an element list.
pub open spec fn parse_elements(s: Seq<char>, i: int) -> Option<(Seq<JVal>, int)>
    decreases s.len() - i, 2int,
{
    let j = ws_end(s, i);
    if !(i <= j && j < s.len()) {
        None
    } else if s[j] == ']' {
        Some((Seq::empty(), j + 1))
    } else {
        parse_element_list(s, i)
    }
}

/// Parse one or more comma-separated elements followed by `]`.
pub open spec fn parse_element_list(s: Seq<char>, i: int) -> Option<(Seq<JVal>, int)>
    decreases s.len() - i, 1int,
{
    if !(0 <= i && i <= s.len()) {
        None
    } else {
        match parse_value(s, i) {
            None => None,
            Some((v, j5)) => {
                let j6 = ws_end(s, j5);
                if !(j5 <= j6 && j6 < s.len()) {
                    None
                } else if s[j6] == ']' {
                    Some((seq![v], j6 + 1))
                } else if s[j6] == ',' {
                    let j7 = j6 + 1;
                    if !(i < j7 && j7 <= s.len()) {
                        None
                    } else {
                        match parse_element_list(s, j7) {
                            None => None,
                            Some((rest, j8)) => Some((seq![v] + rest, j8)),
                        }
                    }
                } else {
                    None
                }
            },
        }
    }
}

// ---------------------------------------------------------------------------
// Position bounds: a successful parse always advances and stays in range.
// ---------------------------------------------------------------------------
pub proof fn lemma_parse_string_body_bounds(s: Seq<char>, i: int)
    requires
        0 <= i,
    ensures
        parse_string_body(s, i) is Some ==> i < parse_string_body(s, i)->Some_0.1 <= s.len(),
    decreases s.len() - i,
{
    if 0 <= i < s.len() {
        let c = s[i];
        if c == '\\' && i + 1 < s.len() {
            if s[i + 1] == 'u' {
                if i + 6 <= s.len() {
                    lemma_parse_string_body_bounds(s, i + 6);
                }
            } else {
                lemma_parse_string_body_bounds(s, i + 2);
            }
        } else {
            lemma_parse_string_body_bounds(s, i + 1);
        }
    }
}

pub proof fn lemma_parse_string_bounds(s: Seq<char>, i: int)
    requires
        0 <= i,
    ensures
        parse_string(s, i) is Some ==> i < parse_string(s, i)->Some_0.1 <= s.len(),
{
    lemma_parse_string_body_bounds(s, i + 1);
}

pub proof fn lemma_parse_int_bounds(s: Seq<char>, i: int)
    requires
        0 <= i <= s.len(),
    ensures
        parse_int(s, i) is Some ==> i < parse_int(s, i)->Some_0.1 <= s.len(),
{
    lemma_digits_end_bounds(s, i);
    if 0 <= i < s.len() && s[i] == '-' {
        lemma_digits_end_bounds(s, i + 1);
    }
}

pub proof fn lemma_parse_value_bounds(s: Seq<char>, i: int)
    requires
        0 <= i <= s.len(),
    ensures
        parse_value(s, i) is Some ==> i < parse_value(s, i)->Some_0.1 <= s.len(),
    decreases s.len() - i, 0int,
{
    let j = ws_end(s, i);
    lemma_ws_end_bounds(s, i);
    if i <= j && j < s.len() {
        let c = s[j];
        if c == '{' {
            lemma_parse_members_bounds(s, j + 1);
        } else if c == '[' {
            lemma_parse_elements_bounds(s, j + 1);
        } else if c == '"' {
            lemma_parse_string_body_bounds(s, j + 1);
        } else if c == '-' || is_digit(c) {
            lemma_parse_int_bounds(s, j);
        }
    }
}

pub proof fn lemma_parse_members_bounds(s: Seq<char>, i: int)
    requires
        0 <= i <= s.len(),
    ensures
        parse_members(s, i) is Some ==> i <= parse_members(s, i)->Some_0.1 <= s.len(),
    decreases s.len() - i, 2int,
{
    let j = ws_end(s, i);
    lemma_ws_end_bounds(s, i);
    if i <= j && j < s.len() && s[j] != '}' {
        lemma_parse_member_list_bounds(s, i);
    }
}

pub proof fn lemma_parse_member_list_bounds(s: Seq<char>, i: int)
    requires
        0 <= i <= s.len(),
    ensures
        parse_member_list(s, i) is Some ==> i <= parse_member_list(s, i)->Some_0.1 <= s.len(),
    decreases s.len() - i, 1int,
{
    let j1 = ws_end(s, i);
    lemma_ws_end_bounds(s, i);
    if i <= j1 && parse_string(s, j1) is Some {
        let (key, j2) = parse_string(s, j1)->Some_0;
        lemma_parse_string_bounds(s, j1);
        let j3 = ws_end(s, j2);
        lemma_ws_end_bounds(s, j2);
        if j2 <= j3 && j3 < s.len() && s[j3] == ':' {
            let j4 = j3 + 1;
            if i < j4 && j4 <= s.len() && parse_value(s, j4) is Some {
                let (v, j5) = parse_value(s, j4)->Some_0;
                lemma_parse_value_bounds(s, j4);
                let j6 = ws_end(s, j5);
                lemma_ws_end_bounds(s, j5);
                if j5 <= j6 && j6 < s.len() && s[j6] == ',' {
                    let j7 = j6 + 1;
                    if i < j7 && j7 <= s.len() {
                        lemma_parse_member_list_bounds(s, j7);
                    }
                }
            }
        }
    }
}

pub proof fn lemma_parse_elements_bounds(s: Seq<char>, i: int)
    requires
        0 <= i <= s.len(),
    ensures
        parse_elements(s, i) is Some ==> i <= parse_elements(s, i)->Some_0.1 <= s.len(),
    decreases s.len() - i, 2int,
{
    let j = ws_end(s, i);
    lemma_ws_end_bounds(s, i);
    if i <= j && j < s.len() && s[j] != ']' {
        lemma_parse_element_list_bounds(s, i);
    }
}

pub proof fn lemma_parse_element_list_bounds(s: Seq<char>, i: int)
    requires
        0 <= i <= s.len(),
    ensures
        parse_element_list(s, i) is Some ==> i <= parse_element_list(s, i)->Some_0.1 <= s.len(),
    decreases s.len() - i, 1int,
{
    if parse_value(s, i) is Some {
        let (v, j5) = parse_value(s, i)->Some_0;
        lemma_parse_value_bounds(s, i);
        let j6 = ws_end(s, j5);
        lemma_ws_end_bounds(s, j5);
        if j5 <= j6 && j6 < s.len() && s[j6] == ',' {
            let j7 = j6 + 1;
            if i < j7 && j7 <= s.len() {
                lemma_parse_element_list_bounds(s, j7);
            }
        }
    }
}

// ---------------------------------------------------------------------------
// Specification-level renderer (strings and integers; records assemble
// these by concatenation)
// ---------------------------------------------------------------------------
/// Lower-case hexadecimal digit for a value below 16.
pub open spec fn hex_digit(v: int) -> char {
    if v == 0 { '0' } else if v == 1 { '1' } else if v == 2 { '2' } else if v == 3 { '3' }
    else if v == 4 { '4' } else if v == 5 { '5' } else if v == 6 { '6' } else if v == 7 { '7' }
    else if v == 8 { '8' } else if v == 9 { '9' } else if v == 10 { 'a' } else if v == 11 { 'b' }
    else if v == 12 { 'c' } else if v == 13 { 'd' } else if v == 14 { 'e' } else { 'f' }
}

/// How one character is written inside a JSON string.
pub open spec fn escape_char(c: char) -> Seq<char> {
    if c == '"' {
        seq!['\\', '"']
    } else if c == '\\' {
        seq!['\\', '\\']
    } else if (c as u32) < 0x20 {
        seq!['\\', 'u', '0', '0', hex_digit(c as u32 as int / 16), hex_digit(c as u32 as int % 16)]
    } else {
        seq![c]
    }
}

pub open spec fn escape_string(t: Seq<char>) -> Seq<char>
    decreases t.len(),
{
    if t.len() == 0 {
        Seq::empty()
    } else {
        escape_char(t[0]) + escape_string(t.drop_first())
    }
}

/// A string as written: quoted and escaped.
pub open spec fn render_string(t: Seq<char>) -> Seq<char> {
    seq!['"'] + escape_string(t) + seq!['"']
}

/// Decimal digits of a non-negative number, empty for zero.
pub open spec fn dec_digits(n: int) -> Seq<char>
    decreases n,
{
    if n <= 0 {
        Seq::empty()
    } else {
        dec_digits(n / 10) + seq![hex_digit(n % 10)]
    }
}

/// An integer as written.
pub open spec fn render_int(v: int) -> Seq<char> {
    if v == 0 {
        seq!['0']
    } else if v < 0 {
        seq!['-'] + dec_digits(-v)
    } else {
        dec_digits(v)
    }
}

// ---------------------------------------------------------------------------
// Executable parser, proved to agree with the specification parser
// ---------------------------------------------------------------------------
pub fn is_ws_exec(c: char) -> (r: bool)
    ensures
        r == is_ws(c),
{
    c == ' ' || c == '\n' || c == '\r' || c == '\t'
}

pub fn is_digit_exec(c: char) -> (r: bool)
    ensures
        r == is_digit(c),
{
    let v = c as u32;
    48 <= v && v <= 57
}

/// Skip whitespace from `i` on.
pub fn ws_skip(s: &Vec<char>, i: usize) -> (r: usize)
    requires
        i <= s@.len(),
    ensures
        r == ws_end(s@, i as int),
        i <= r <= s@.len(),
{
    let mut k = i;
    while k < s.len() && is_ws_exec(s[k])
        invariant
            i <= k <= s@.len(),
            ws_end(s@, i as int) == ws_end(s@, k as int),
        decreases s@.len() - k,
    {
        k = k + 1;
    }
    k
}

/// Relies on `char::from_u32`: `Some` exactly for valid scalar values
/// (below the surrogate range or above it), yielding that scalar.
#[verifier::external_body]
fn char_from_u32(v: u32) -> (r: Option<char>)
    ensures
        r == if v < 0xD800 || (0xE000 <= v && v < 0x110000) {
            Some(v as char)
        } else {
            None::<char>
        },
{
    char::from_u32(v)
}

pub fn hex_val_exec(c: char) -> (r: Option<u32>)
    ensures
        match r {
            Some(v) => hex_val(c) == Some(v as int),
            None => hex_val(c) is None,
        },
{
    let v = c as u32;
    if 48 <= v && v <= 57 {
        Some(v - 48)
    } else if 97 <= v && v <= 102 {
        Some(v - 87)
    } else if 65 <= v && v <= 70 {
        Some(v - 55)
    } else {
        None
    }
}

/// Parse the body of a string starting just after the opening quote,
/// appending the decoded characters to `acc`.
#[verifier::rlimit(40)]
fn parse_string_body_exec(s: &Vec<char>, i: usize, acc: &mut Vec<char>) -> (r: Option<usize>)
    requires
        i <= s@.len(),
    ensures
        match parse_string_body(s@, i as int) {
            Some((t, j)) => r == Some(j as usize) && final(acc)@ == old(acc)@ + t,
            None => r is None,
        },
    decreases s@.len() - i,
{
    if i >= s.len() {
        return None;
    }
    let c = s[i];
    if c == '"' {
        proof {
            assert(acc@ =~= old(acc)@ + Seq::<char>::empty());
        }
        Some(i + 1)
    } else if c == '\\' {
        if i + 1 >= s.len() {
            return None;
        }
        let e = s[i + 1];
        if e == 'u' {
            if s.len() - i < 6 {
                proof {
                    assert(hex4_val(s@, i + 2 as int) is None);
                }
                return None;
            }
            let h0 = hex_val_exec(s[i + 2]);
            let h1 = hex_val_exec(s[i + 3]);
            let h2 = hex_val_exec(s[i + 4]);
            let h3 = hex_val_exec(s[i + 5]);
            match (h0, h1, h2, h3) {
                (Some(a), Some(b), Some(cc), Some(d)) => {
                    let v: u32 = a * 4096 + b * 256 + cc * 16 + d;
                    match char_from_u32(v) {
                        Some(ch) => {
                            acc.push(ch);
                            let r = parse_string_body_exec(s, i + 6, acc);
                            proof {
                                if parse_string_body(s@, i + 6 as int) is Some {
                                    let (t, _j) = parse_string_body(s@, i + 6 as int)->Some_0;
                                    assert(acc@ =~= old(acc)@ + (seq![ch] + t));
                                }
                            }
                            r
                        },
                        None => None,
                    }
                },
                _ => None,
            }
        } else {
            match short_escape_exec(e) {
                Some(d) => {
                    acc.push(d);
                    let r = parse_string_body_exec(s, i + 2, acc);
                    proof {
                        if parse_string_body(s@, i + 2 as int) is Some {
                            let (t, _j) = parse_string_body(s@, i + 2 as int)->Some_0;
                            assert(acc@ =~= old(acc)@ + (seq![d] + t));
                        }
                    }
                    r
                },
                None => None,
            }
        }
    } else if (c as u32) < 0x20 {
        None
    } else {
        acc.push(c);
        let r = parse_string_body_exec(s, i + 1, acc);
        proof {
            if parse_string_body(s@, i + 1 as int) is Some {
                let (t, _j) = parse_string_body(s@, i + 1 as int)->Some_0;
                assert(acc@ =~= old(acc)@ + (seq![c] + t));
            }
        }
        r
    }
}

fn short_escape_exec(c: char) -> (r: Option<char>)
    ensures
        r == short_escape(c),
{
    if c == '"' {
        Some('"')
    } else if c == '\\' {
        Some('\\')
    } else if c == '/' {
        Some('/')
    } else if c == 'b' {
        Some(8u8 as char)
    } else if c == 'f' {
        Some(12u8 as char)
    } else if c == 'n' {
        Some('\n')
    } else if c == 'r' {
        Some('\r')
    } else if c == 't' {
        Some('\t')
    } else {
        None
    }
}

/// Parse a quoted string at `i`, returning its decoded characters.
pub fn parse_string_exec(s: &Vec<char>, i: usize) -> (r: Option<(Vec<char>, usize)>)
    requires
        i <= s@.len(),
    ensures
        match parse_string(s@, i as int) {
            Some((t, j)) => r is Some && r->Some_0.0@ == t && r->Some_0.1 == j as usize,
            None => r is None,
        },
{
    if i >= s.len() || s[i] != '"' {
        return None;
    }
    let mut acc: Vec<char> = Vec::new();
    match parse_string_body_exec(s, i + 1, &mut acc) {
        Some(j) => Some((acc, j)),
        None => None,
    }
}

/// Largest digit-run value that may still be an `i64` magnitude: `2^63`.
pub const INT_MAG_CAP: u64 = 9223372036854775808;

pub proof fn lemma_digits_val_nonneg(s: Seq<char>, i: int, j: int)
    requires
        forall|m: int| i <= m < j ==> is_digit(#[trigger] s[m]),
    ensures
        digits_val(s, i, j) >= 0,
    decreases j - i,
{
    if i < j {
        lemma_digits_val_nonneg(s, i, j - 1);
    }
}

pub proof fn lemma_digits_val_mono(s: Seq<char>, i: int, j: int, k: int)
    requires
        i <= j <= k,
        forall|m: int| i <= m < k ==> is_digit(#[trigger] s[m]),
    ensures
        digits_val(s, i, k) >= digits_val(s, i, j),
    decreases k - j,
{
    if j < k {
        lemma_digits_val_mono(s, i, j, k - 1);
        lemma_digits_val_nonneg(s, i, k - 1);
        assert(digits_val(s, i, k) == digits_val(s, i, k - 1) * 10 + digit_val(s[k - 1]));
        assert(digits_val(s, i, k - 1) * 10 >= digits_val(s, i, k - 1)) by (nonlinear_arith)
            requires digits_val(s, i, k - 1) >= 0;
    }
}

pub proof fn lemma_digits_end_of_run(s: Seq<char>, i: int, k: int)
    requires
        0 <= i <= k <= s.len(),
        forall|m: int| i <= m < k ==> is_digit(#[trigger] s[m]),
        k == s.len() || !is_digit(s[k]),
    ensures
        digits_end(s, i) == k,
    decreases k - i,
{
    if i < k {
        lemma_digits_end_of_run(s, i + 1, k);
    }
}

/// Parse an optionally signed decimal integer at `i`.
#[verifier::loop_isolation(false)]
pub fn parse_int_exec(s: &Vec<char>, i: usize) -> (r: Option<(i64, usize)>)
    requires
        i <= s@.len(),
    ensures
        match parse_int(s@, i as int) {
            Some((v, j)) => r is Some && r->Some_0.0 == v && r->Some_0.1 == j as usize,
            None => r is None,
        },
{
    let neg = i < s.len() && s[i] == '-';
    let d0 = if neg {
        i + 1
    } else {
        i
    };
    let mut k = d0;
    let mut acc: u64 = 0;
    proof {
        lemma_digits_end_bounds(s@, d0 as int);
    }
    while k < s.len() && is_digit_exec(s[k])
        invariant
            d0 <= k <= s@.len(),
            acc <= INT_MAG_CAP,
            acc == digits_val(s@, d0 as int, k as int),
            forall|m: int| d0 <= m < k ==> is_digit(#[trigger] s@[m]),
        decreases s@.len() - k,
    {
        let d = (s[k] as u32 - 48) as u64;
        if acc > (INT_MAG_CAP - d) / 10 {
            // The digit run is already too large for an `i64` in either sign.
            proof {
                let j = digits_end(s@, d0 as int);
                lemma_digits_end_bounds(s@, d0 as int);
                assert(acc * 10 + d > INT_MAG_CAP) by (nonlinear_arith)
                    requires
                        acc > (INT_MAG_CAP - d) / 10,
                        0 <= d < 10,
                        (INT_MAG_CAP - d) / 10 >= 0,
                        INT_MAG_CAP - d == ((INT_MAG_CAP - d) / 10) * 10 + (INT_MAG_CAP - d) % 10,
                        0 <= (INT_MAG_CAP - d) % 10 < 10;
                assert(digits_val(s@, d0 as int, k + 1 as int) == acc * 10 + d);
                assert(forall|m: int| d0 <= m < j ==> is_digit(#[trigger] s@[m])) by {
                    lemma_digits_in_run(s@, d0 as int, j);
                }
                assert(k + 1 <= j) by {
                    lemma_digits_end_lower(s@, d0 as int, k + 1 as int);
                }
                lemma_digits_val_mono(s@, d0 as int, k + 1 as int, j);
                assert(digits_val(s@, d0 as int, j) > INT_MAG_CAP);
                assert(j != d0);
                let ii = i as int;
                let sneg = 0 <= ii < s@.len() && s@[ii] == '-';
                assert(sneg == neg);
                let sd0: int = if sneg { ii + 1 } else { ii };
                assert(sd0 == d0 as int);
                let m = digits_val(s@, sd0, j);
                assert(m > i64::MAX);
                assert(!(i64::MIN <= m <= i64::MAX));
                assert(!(i64::MIN <= -m <= i64::MAX));
                assert(parse_int(s@, ii) is None);
            }
            return None;
        }
        acc = acc * 10 + d;
        k = k + 1;
    }
    proof {
        lemma_digits_end_of_run(s@, d0 as int, k as int);
    }
    if k == d0 {
        return None;
    }
    if neg {
        if acc == INT_MAG_CAP {
            Some((i64::MIN, k))
        } else {
            Some((-(acc as i64), k))
        }
    } else {
        if acc == INT_MAG_CAP {
            None
        } else {
            Some((acc as i64, k))
        }
    }
}

/// Every position before `digits_end` holds a digit.
pub proof fn lemma_digits_in_run(s: Seq<char>, i: int, j: int)
    requires
        0 <= i <= s.len(),
        j == digits_end(s, i),
    ensures
        forall|m: int| i <= m < j ==> is_digit(#[trigger] s[m]),
    decreases s.len() - i,
{
    lemma_digits_end_bounds(s, i);
    if i < s.len() && is_digit(s[i]) {
        lemma_digits_in_run(s, i + 1, j);
    }
}

/// `digits_end` reaches at least past any digit prefix.
pub proof fn lemma_digits_end_lower(s: Seq<char>, i: int, k: int)
    requires
        0 <= i <= k <= s.len(),
        forall|m: int| i <= m < k ==> is_digit(#[trigger] s[m]),
    ensures
        digits_end(s, i) >= k,
    decreases k - i,
{
    lemma_digits_end_bounds(s, i);
    if i < k {
        assert(is_digit(s[i]));
        lemma_digits_end_lower(s, i + 1, k);
    }
}

// ---------------------------------------------------------------------------
// Round trip: parsing what the renderer wrote yields the original value.
// The premise of each lemma says that the rendered text stands at `i`,
// written as an equation on the suffix `s.skip(i)`.
// ---------------------------------------------------------------------------
/// Splitting a suffix equation at a concatenation boundary.
pub proof fn lemma_skip_split(s: Seq<char>, i: int, a: Seq<char>, b: Seq<char>)
    requires
        0 <= i <= s.len(),
        s.skip(i) == a + b,
    ensures
        i + a.len() + b.len() == s.len(),
        s.skip(i + a.len()) == b,
        s.subrange(i, i + a.len()) == a,
        forall|k: int| i <= k < i + a.len() ==> s[k] == a[k - i],
{
    assert(s.skip(i).len() == s.len() - i);
    assert forall|k: int| i <= k < i + a.len() implies s[k] == a[k - i] by {
        assert(s.skip(i)[k - i] == s[k]);
        assert((a + b)[k - i] == a[k - i]);
    }
    assert(s.subrange(i, i + a.len()) =~= a);
    assert forall|k: int| 0 <= k < b.len() implies s.skip(i + a.len())[k] == b[k] by {
        assert(s.skip(i)[a.len() + k] == s[i + a.len() + k]);
        assert((a + b)[a.len() + k] == b[k]);
        assert(s.skip(i + a.len())[k] == s[i + a.len() + k]);
    }
    assert(s.skip(i + a.len()) =~= b);
}

/// Whitespace skipping stops at once on non-whitespace or at the end.
pub proof fn lemma_ws_end_at(s: Seq<char>, i: int)
    requires
        0 <= i,
        i >= s.len() || !is_ws(s[i]),
    ensures
        ws_end(s, i) == i,
{
}

pub proof fn lemma_hex_val_digit(v: int)
    requires
        0 <= v < 16,
    ensures
        hex_val(hex_digit(v)) == Some(v),
        is_digit(hex_digit(v)) <==> v < 10,
        v < 10 ==> digit_val(hex_digit(v)) == v,
        hex_digit(v) != '"' && hex_digit(v) != '\\' && hex_digit(v) != '-',
        (hex_digit(v) as u32) >= 0x20,
{
}

/// Parsing a rendered string body gives back the original characters.
pub proof fn lemma_parse_escape_body(s: Seq<char>, i: int, t: Seq<char>, rest: Seq<char>)
    requires
        0 <= i <= s.len(),
        s.skip(i) == escape_string(t) + seq!['"'] + rest,
    ensures
        parse_string_body(s, i) == Some((t, i + escape_string(t).len() + 1)),
    decreases t.len(),
{
    if t.len() == 0 {
        assert(escape_string(t) + seq!['"'] + rest =~= seq!['"'] + rest);
        lemma_skip_split(s, i, seq!['"'], rest);
        assert(s[i] == '"');
        assert(parse_string_body(s, i)->Some_0.0 =~= t);
    } else {
        let c = t[0];
        let t2 = t.drop_first();
        let a = escape_char(c);
        let b = escape_string(t2) + seq!['"'] + rest;
        assert(escape_string(t) == a + escape_string(t2));
        assert(s.skip(i) =~= a + b);
        lemma_skip_split(s, i, a, b);
        lemma_parse_escape_body(s, i + a.len(), t2, rest);
        if c == '"' {
            assert(s[i] == '\\' && s[i + 1] == '"');
            assert(parse_string_body(s, i)->Some_0.0 =~= t);
        } else if c == '\\' {
            assert(s[i] == '\\' && s[i + 1] == '\\');
            assert(parse_string_body(s, i)->Some_0.0 =~= t);
        } else if (c as u32) < 0x20 {
            let hi = c as u32 as int / 16;
            let lo = c as u32 as int % 16;
            lemma_hex_val_digit(hi);
            lemma_hex_val_digit(lo);
            assert(s[i] == '\\' && s[i + 1] == 'u' && s[i + 2] == '0' && s[i + 3] == '0' && s[i
                + 4] == hex_digit(hi) && s[i + 5] == hex_digit(lo));
            assert(hex_val('0') == Some(0int));
            assert(hex4_val(s, i + 2) == Some(hi * 16 + lo));
            assert(hi * 16 + lo == c as u32) by {
                assert(c as u32 as int == (c as u32 as int / 16) * 16 + c as u32 as int % 16);
            }
            vstd::utf8::char_u32_cast(c, c as u32);
            assert(((c as u32) as char) == c);
            assert(parse_string_body(s, i)->Some_0.0 =~= t);
        } else {
            assert(a =~= seq![c]);
            assert(s[i] == c);
            assert(parse_string_body(s, i)->Some_0.0 =~= t);
        }
    }
}

/// Parsing a rendered string gives back the original characters.
pub proof fn lemma_parse_render_string(s: Seq<char>, i: int, t: Seq<char>, rest: Seq<char>)
    requires
        0 <= i <= s.len(),
        s.skip(i) == render_string(t) + rest,
    ensures
        parse_string(s, i) == Some((t, i + render_string(t).len())),
{
    assert(render_string(t) + rest =~= seq!['"'] + (escape_string(t) + seq!['"'] + rest));
    lemma_skip_split(s, i, seq!['"'], escape_string(t) + seq!['"'] + rest);
    assert(s[i] == '"');
    lemma_parse_escape_body(s, i + 1, t, rest);
}

/// The decimal digits of a positive number are digit characters.
pub proof fn lemma_dec_digits_shape(n: int)
    requires
        n >= 1,
    ensures
        dec_digits(n).len() >= 1,
        forall|k: int| 0 <= k < dec_digits(n).len() ==> is_digit(#[trigger] dec_digits(n)[k]),
    decreases n,
{
    lemma_hex_val_digit(n % 10);
    if n / 10 >= 1 {
        lemma_dec_digits_shape(n / 10);
        assert forall|k: int| 0 <= k < dec_digits(n).len() implies is_digit(
            #[trigger] dec_digits(n)[k],
        ) by {
            if k < dec_digits(n / 10).len() {
                assert(dec_digits(n)[k] == dec_digits(n / 10)[k]);
            } else {
                assert(dec_digits(n)[k] == hex_digit(n % 10));
            }
        }
    } else {
        assert(dec_digits(n / 10) =~= Seq::<char>::empty());
        assert(dec_digits(n) =~= seq![hex_digit(n % 10)]);
    }
}

/// The value read back from a written digit run is the number written.
pub proof fn lemma_dec_digits_val(s: Seq<char>, d0: int, n: int)
    requires
        n >= 1,
        0 <= d0,
        d0 + dec_digits(n).len() <= s.len(),
        s.subrange(d0, d0 + dec_digits(n).len()) == dec_digits(n),
    ensures
        digits_val(s, d0, d0 + dec_digits(n).len()) == n,
    decreases n,
{
    let w = dec_digits(n);
    let len = w.len() as int;
    lemma_hex_val_digit(n % 10);
    assert(s[d0 + len - 1] == w[len - 1]) by {
        assert(s.subrange(d0, d0 + len)[len - 1] == s[d0 + len - 1]);
    }
    assert(w[len - 1] == hex_digit(n % 10));
    if n / 10 >= 1 {
        let w2 = dec_digits(n / 10);
        assert(s.subrange(d0, d0 + w2.len()) =~= w2) by {
            assert forall|k: int| 0 <= k < w2.len() implies s.subrange(d0, d0 + w2.len())[k]
                == w2[k] by {
                assert(s.subrange(d0, d0 + len)[k] == s[d0 + k]);
                assert(w[k] == w2[k]);
            }
        }
        lemma_dec_digits_val(s, d0, n / 10);
        assert(digits_val(s, d0, d0 + len) == digits_val(s, d0, d0 + len - 1) * 10 + digit_val(
            s[d0 + len - 1],
        ));
        assert(digits_val(s, d0, d0 + len) == (n / 10) * 10 + n % 10);
    } else {
        assert(dec_digits(n / 10) =~= Seq::<char>::empty());
        assert(w =~= seq![hex_digit(n % 10)]);
        assert(len == 1);
        assert(digits_val(s, d0, d0 + 1) == digits_val(s, d0, d0) * 10 + digit_val(s[d0]));
        assert(n == n % 10);
    }
}

/// Parsing a rendered integer gives back the original value.
pub proof fn lemma_parse_render_int(s: Seq<char>, i: int, v: i64, rest: Seq<char>)
    requires
        0 <= i <= s.len(),
        s.skip(i) == render_int(v as int) + rest,
        rest.len() == 0 || !is_digit(rest[0]),
    ensures
        parse_int(s, i) == Some((v, i + render_int(v as int).len())),
{
    let w = render_int(v as int);
    lemma_skip_split(s, i, w, rest);
    let j = i + w.len();
    assert(j == s.len() || !is_digit(s[j])) by {
        if j < s.len() {
            assert(s.skip(j)[0] == s[j]);
        }
    }
    if v == 0 {
        assert(w =~= seq!['0']);
        assert(s[i] == '0');
        assert(is_digit('0') && digit_val('0') == 0);
        assert(!(s[i] == '-'));
        lemma_digits_end_of_run(s, i, i + 1);
        assert(digits_val(s, i, i + 1) == digits_val(s, i, i) * 10 + digit_val(s[i]));
    } else {
        let neg = v < 0;
        let m: int = if neg { -(v as int) } else { v as int };
        let d0: int = if neg { i + 1 } else { i };
        lemma_dec_digits_shape(m);
        if neg {
            assert(w == seq!['-'] + dec_digits(m));
            assert(s[i] == '-');
        } else {
            assert(w == dec_digits(m));
            assert(s[i] == w[0]);
            assert(is_digit(s[i]));
            assert(s[i] != '-') by {
                assert(('-' as u32) == 45);
            }
        }
        assert(s.subrange(d0, d0 + dec_digits(m).len()) =~= dec_digits(m)) by {
            assert forall|k: int| 0 <= k < dec_digits(m).len() implies s.subrange(
                d0,
                d0 + dec_digits(m).len(),
            )[k] == dec_digits(m)[k] by {
                assert(s[d0 + k] == w[d0 + k - i]);
                if neg {
                    assert(w[d0 + k - i] == (seq!['-'] + dec_digits(m))[1 + k]);
                }
            }
        }
        assert(forall|q: int| d0 <= q < d0 + dec_digits(m).len() ==> is_digit(#[trigger] s[q]))
            by {
            assert forall|q: int| d0 <= q < d0 + dec_digits(m).len() implies is_digit(
                #[trigger] s[q],
            ) by {
                assert(s.subrange(d0, d0 + dec_digits(m).len())[q - d0] == s[q]);
                assert(is_digit(dec_digits(m)[q - d0]));
            }
        }
        lemma_digits_end_of_run(s, d0, d0 + dec_digits(m).len());
        lemma_dec_digits_val(s, d0, m);
        if neg {
            assert(i64::MIN <= -m <= i64::MAX);
        }
    }
}

// ---------------------------------------------------------------------------
// Executable skipping of a value: finds where a value ends without building
// it, used to pass over unknown fields.
// ---------------------------------------------------------------------------
/// Skip a string body, returning the position after the closing quote.
fn skip_string_body(s: &Vec<char>, i: usize) -> (r: Option<usize>)
    requires
        i <= s@.len(),
    ensures
        match parse_string_body(s@, i as int) {
            Some((t, j)) => r == Some(j as usize),
            None => r is None,
        },
    decreases s@.len() - i,
{
    if i >= s.len() {
        return None;
    }
    let c = s[i];
    if c == '"' {
        Some(i + 1)
    } else if c == '\\' {
        if i + 1 >= s.len() {
            return None;
        }
        let e = s[i + 1];
        if e == 'u' {
            if s.len() - i < 6 {
                proof {
                    assert(hex4_val(s@, i + 2 as int) is None);
                }
                return None;
            }
            let h0 = hex_val_exec(s[i + 2]);
            let h1 = hex_val_exec(s[i + 3]);
            let h2 = hex_val_exec(s[i + 4]);
            let h3 = hex_val_exec(s[i + 5]);
            match (h0, h1, h2, h3) {
                (Some(a), Some(b), Some(cc), Some(d)) => {
                    let v: u32 = a * 4096 + b * 256 + cc * 16 + d;
                    if v < 0xD800 || 0xE000 <= v {
                        skip_string_body(s, i + 6)
                    } else {
                        None
                    }
                },
                _ => None,
            }
        } else {
            match short_escape_exec(e) {
                Some(_) => skip_string_body(s, i + 2),
                None => None,
            }
        }
    } else if (c as u32) < 0x20 {
        None
    } else {
        skip_string_body(s, i + 1)
    }
}

/// Skip a quoted string at `i`.
fn skip_string(s: &Vec<char>, i: usize) -> (r: Option<usize>)
    requires
        i <= s@.len(),
    ensures
        match parse_string(s@, i as int) {
            Some((t, j)) => r == Some(j as usize),
            None => r is None,
        },
{
    if i >= s.len() || s[i] != '"' {
        return None;
    }
    skip_string_body(s, i + 1)
}

/// Check a literal word at `j`, character by character.
#[verifier::loop_isolation(false)]
pub fn lit_check(s: &Vec<char>, j: usize, w: &Vec<char>) -> (r: bool)
    requires
        j <= s@.len(),
    ensures
        r == lit_at(s@, j as int, w@),
{
    if s.len() - j < w.len() {
        proof {
            assert(!lit_at(s@, j as int, w@));
        }
        return false;
    }
    let mut k: usize = 0;
    while k < w.len()
        invariant
            k <= w@.len(),
            j + w@.len() <= s@.len(),
            forall|m: int| 0 <= m < k ==> s@[j + m] == w@[m],
        decreases w@.len() - k,
    {
        if s[j + k] != w[k] {
            proof {
                assert(s@.subrange(j as int, j + w@.len())[k as int] == s@[j + k]);
            }
            return false;
        }
        k = k + 1;
    }
    proof {
        assert(s@.subrange(j as int, j + w@.len()) =~= w@);
    }
    true
}

/// Skip one JSON value starting (after whitespace) at `i`, returning the
/// position just after it; agrees with the specification parser.
pub fn skip_value(s: &Vec<char>, i: usize) -> (r: Option<usize>)
    requires
        i <= s@.len(),
    ensures
        match parse_value(s@, i as int) {
            Some((v, j)) => r == Some(j as usize) && i < j <= s@.len(),
            None => r is None,
        },
    decreases s@.len() - i, 0int,
{
    proof {
        lemma_parse_value_bounds(s@, i as int);
    }
    let j = ws_skip(s, i);
    if j >= s.len() {
        return None;
    }
    let c = s[j];
    if c == '{' {
        skip_members(s, j + 1)
    } else if c == '[' {
        skip_elements(s, j + 1)
    } else if c == '"' {
        skip_string_body(s, j + 1)
    } else if c == 'n' {
        let w = crate::chars::str_to_chars("null");
        proof {
            reveal_strlit("null");
            assert(w@ =~= seq!['n', 'u', 'l', 'l']);
        }
        if lit_check(s, j, &w) {
            Some(j + 4)
        } else {
            None
        }
    } else if c == 't' {
        let w = crate::chars::str_to_chars("true");
        proof {
            reveal_strlit("true");
            assert(w@ =~= seq!['t', 'r', 'u', 'e']);
        }
        if lit_check(s, j, &w) {
            Some(j + 4)
        } else {
            None
        }
    } else if c == 'f' {
        let w = crate::chars::str_to_chars("false");
        proof {
            reveal_strlit("false");
            assert(w@ =~= seq!['f', 'a', 'l', 's', 'e']);
        }
        if lit_check(s, j, &w) {
            Some(j + 5)
        } else {
            None
        }
    } else if c == '-' || is_digit_exec(c) {
        match parse_int_exec(s, j) {
            Some((_v, k)) => Some(k),
            None => None,
        }
    } else {
        None
    }
}

/// Skip what follows an object's `{`.
fn skip_members(s: &Vec<char>, i: usize) -> (r: Option<usize>)
    requires
        i <= s@.len(),
    ensures
        match parse_members(s@, i as int) {
            Some((ms, j)) => r == Some(j as usize),
            None => r is None,
        },
    decreases s@.len() - i, 2int,
{
    let j = ws_skip(s, i);
    if j >= s.len() {
        return None;
    }
    if s[j] == '}' {
        Some(j + 1)
    } else {
        skip_member_list(s, i)
    }
}

/// Skip one or more `"key": value` members followed by `}`.
fn skip_member_list(s: &Vec<char>, i: usize) -> (r: Option<usize>)
    requires
        i <= s@.len(),
    ensures
        match parse_member_list(s@, i as int) {
            Some((ms, j)) => r == Some(j as usize),
            None => r is None,
        },
    decreases s@.len() - i, 1int,
{
    let j1 = ws_skip(s, i);
    let j2 = match skip_string(s, j1) {
        Some(j2) => j2,
        None => {
            return None;
        },
    };
    proof {
        lemma_parse_string_bounds(s@, j1 as int);
    }
    let j3 = ws_skip(s, j2);
    if j3 >= s.len() || s[j3] != ':' {
        return None;
    }
    let j4 = j3 + 1;
    let j5 = match skip_value(s, j4) {
        Some(j5) => j5,
        None => {
            return None;
        },
    };
    let j6 = ws_skip(s, j5);
    if j6 >= s.len() {
        return None;
    }
    if s[j6] == '}' {
        Some(j6 + 1)
    } else if s[j6] == ',' {
        let j7 = j6 + 1;
        skip_member_list(s, j7)
    } else {
        None
    }
}

/// Skip what follows an array's `[`.
fn skip_elements(s: &Vec<char>, i: usize) -> (r: Option<usize>)
    requires
        i <= s@.len(),
    ensures
        match parse_elements(s@, i as int) {
            Some((es, j)) => r == Some(j as usize),
            None => r is None,
        },
    decreases s@.len() - i, 2int,
{
    let j = ws_skip(s, i);
    if j >= s.len() {
        return None;
    }
    if s[j] == ']' {
        Some(j + 1)
    } else {
        skip_element_list(s, i)
    }
}

/// Skip one or more comma-separated elements followed by `]`.
fn skip_element_list(s: &Vec<char>, i: usize) -> (r: Option<usize>)
    requires
        i <= s@.len(),
    ensures
        match parse_element_list(s@, i as int) {
            Some((es, j)) => r == Some(j as usize),
            None => r is None,
        },
    decreases s@.len() - i, 1int,
{
    let j5 = match skip_value(s, i) {
        Some(j5) => j5,
        None => {
            return None;
        },
    };
    let j6 = ws_skip(s, j5);
    if j6 >= s.len() {
        return None;
    }
    if s[j6] == ']' {
        Some(j6 + 1)
    } else if s[j6] == ',' {
        let j7 = j6 + 1;
        skip_element_list(s, j7)
    } else {
        None
    }
}

// ---------------------------------------------------------------------------
// Executable renderer
// ---------------------------------------------------------------------------
/// Append the characters of a string slice.
pub fn push_str_chars(out: &mut Vec<char>, lit: &str)
    ensures
        final(out)@ == old(out)@ + lit@,
{
    let mut v = crate::chars::str_to_chars(lit);
    out.append(&mut v);
}

pub proof fn lemma_escape_string_concat(a: Seq<char>, b: Seq<char>)
    ensures
        escape_string(a + b) == escape_string(a) + escape_string(b),
    decreases a.len(),
{
    if a.len() == 0 {
        assert(a + b =~= b);
        assert(escape_string(a) + escape_string(b) =~= escape_string(b));
    } else {
        assert((a + b).drop_first() =~= a.drop_first() + b);
        lemma_escape_string_concat(a.drop_first(), b);
        assert(escape_string(a + b) =~= escape_string(a) + escape_string(b));
    }
}

fn hex_digit_exec(v: u32) -> (r: char)
    requires
        v < 16,
    ensures
        r == hex_digit(v as int),
{
    if v == 0 { '0' } else if v == 1 { '1' } else if v == 2 { '2' } else if v == 3 { '3' }
    else if v == 4 { '4' } else if v == 5 { '5' } else if v == 6 { '6' } else if v == 7 { '7' }
    else if v == 8 { '8' } else if v == 9 { '9' } else if v == 10 { 'a' } else if v == 11 { 'b' }
    else if v == 12 { 'c' } else if v == 13 { 'd' } else if v == 14 { 'e' } else { 'f' }
}

/// Append a string's characters in their JSON-escaped form.
pub fn push_escaped(out: &mut Vec<char>, t: &Vec<char>)
    ensures
        final(out)@ == old(out)@ + escape_string(t@),
{
    let mut k: usize = 0;
    proof {
        assert(t@.take(0) =~= Seq::<char>::empty());
        assert(out@ + escape_string(t@.take(0)) =~= out@);
    }
    while k < t.len()
        invariant
            k <= t@.len(),
            out@ == old(out)@ + escape_string(t@.take(k as int)),
        decreases t@.len() - k,
    {
        let c = t[k];
        if c == '"' {
            out.push('\\');
            out.push('"');
        } else if c == '\\' {
            out.push('\\');
            out.push('\\');
        } else if (c as u32) < 0x20 {
            out.push('\\');
            out.push('u');
            out.push('0');
            out.push('0');
            out.push(hex_digit_exec(c as u32 / 16));
            out.push(hex_digit_exec(c as u32 % 16));
        } else {
            out.push(c);
        }
        proof {
            assert(t@.take(k + 1) =~= t@.take(k as int) + seq![t@[k as int]]);
            lemma_escape_string_concat(t@.take(k as int), seq![t@[k as int]]);
            assert(escape_string(seq![t@[k as int]]) =~= escape_char(t@[k as int])) by {
                let single = seq![t@[k as int]];
                assert(single.drop_first() =~= Seq::<char>::empty());
                assert(escape_string(Seq::<char>::empty()) =~= Seq::<char>::empty());
                assert(escape_string(single) =~= escape_char(single[0]) + Seq::<char>::empty());
            }
            assert(out@ =~= old(out)@ + escape_string(t@.take(k + 1)));
        }
        k = k + 1;
    }
    proof {
        assert(t@.take(t@.len() as int) =~= t@);
    }
}

/// Append a string in its JSON form: quoted and escaped.
pub fn push_quoted(out: &mut Vec<char>, t: &Vec<char>)
    ensures
        final(out)@ == old(out)@ + render_string(t@),
{
    out.push('"');
    push_escaped(out, t);
    out.push('"');
    proof {
        assert(final(out)@ =~= old(out)@ + render_string(t@));
    }
}

fn push_dec(out: &mut Vec<char>, n: u64)
    ensures
        final(out)@ == old(out)@ + dec_digits(n as int),
    decreases n,
{
    if n == 0 {
        proof {
            assert(final(out)@ =~= old(out)@ + dec_digits(0));
        }
        return ;
    }
    push_dec(out, n / 10);
    out.push(hex_digit_exec((n % 10) as u32));
    proof {
        assert(final(out)@ =~= old(out)@ + dec_digits(n as int));
    }
}

/// Append an integer in its JSON form.
pub fn push_int(out: &mut Vec<char>, v: i64)
    ensures
        final(out)@ == old(out)@ + render_int(v as int),
{
    if v == 0 {
        out.push('0');
        proof {
            assert(final(out)@ =~= old(out)@ + render_int(0));
        }
    } else if v < 0 {
        out.push('-');
        let m: u64 = if v == i64::MIN {
            INT_MAG_CAP
        } else {
            (-v) as u64
        };
        push_dec(out, m);
        proof {
            assert(final(out)@ =~= old(out)@ + render_int(v as int));
        }
    } else {
        push_dec(out, v as u64);
    }
}

} // verus!
