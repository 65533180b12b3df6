//! URLs and query strings of the web login flow: percent encoding and
//! decoding, query-parameter lookup, the path of an HTTP request line, the
//! port of a loopback redirect URI, and the texts the flow sends out (the
//! authorize URL, its redacted echo, and the tiny HTTP responses of the
//! local listener).

use vstd::prelude::*;
use vstd::string::StrSliceExecFns;
use crate::json::{
    ws_end, is_ws, is_digit, digit_val, digits_end, digits_val, hex_val, hex_digit, render_int,
    ws_skip, is_ws_exec, is_digit_exec, lemma_digits_end_bounds,
};
use crate::chars::{str_to_chars, chars_to_string};

verus! {

// ---------------------------------------------------------------------------
// Percent encoding and decoding
// ---------------------------------------------------------------------------
/// Characters written as themselves in a query component.
pub open spec fn is_unreserved(c: char) -> bool {
    (48 <= c as u32 <= 57) || (65 <= c as u32 <= 90) || (97 <= c as u32 <= 122) || c == '-' || c
        == '.' || c == '_' || c == '~'
}

/// One percent-escaped byte.
pub open spec fn pct_byte(b: int) -> Seq<char> {
    seq!['%', hex_digit(b / 16), hex_digit(b % 16)]
}

/// How one character is written in a query component: unreserved characters
/// stand as themselves, all others as the percent-escaped bytes of their
/// UTF-8 form.
pub open spec fn pct_encode_char(c: char) -> Seq<char> {
    let v = c as u32 as int;
    if is_unreserved(c) {
        seq![c]
    } else if v < 0x80 {
        pct_byte(v)
    } else if v < 0x800 {
        pct_byte(0xC0 + v / 64) + pct_byte(0x80 + v % 64)
    } else if v < 0x10000 {
        pct_byte(0xE0 + v / 4096) + pct_byte(0x80 + (v / 64) % 64) + pct_byte(0x80 + v % 64)
    } else {
        pct_byte(0xF0 + v / 262144) + pct_byte(0x80 + (v / 4096) % 64) + pct_byte(
            0x80 + (v / 64) % 64,
        ) + pct_byte(0x80 + v % 64)
    }
}

pub open spec fn pct_encode(t: Seq<char>) -> Seq<char>
    decreases t.len(),
{
    if t.len() == 0 {
        Seq::empty()
    } else {
        pct_encode_char(t[0]) + pct_encode(t.drop_first())
    }
}

/// Percent decoding, total: `+` is a space, a valid `%XY` escape is the
/// character of that byte value, and anything malformed stands as itself.
pub open spec fn pct_decode(t: Seq<char>) -> Seq<char>
    decreases t.len(),
{
    if t.len() == 0 {
        Seq::empty()
    } else if t[0] == '+' {
        seq![' '] + pct_decode(t.drop_first())
    } else if t[0] == '%' && t.len() >= 3 && hex_val(t[1]) is Some && hex_val(t[2]) is Some {
        let v = hex_val(t[1])->Some_0 * 16 + hex_val(t[2])->Some_0;
        seq![(v as char)] + pct_decode(t.skip(3))
    } else {
        seq![t[0]] + pct_decode(t.drop_first())
    }
}

proof fn lemma_pct_encode_concat(a: Seq<char>, b: Seq<char>)
    ensures
        pct_encode(a + b) == pct_encode(a) + pct_encode(b),
    decreases a.len(),
{
    if a.len() == 0 {
        assert(a + b =~= b);
        assert(pct_encode(a) + pct_encode(b) =~= pct_encode(b));
    } else {
        assert((a + b).drop_first() =~= a.drop_first() + b);
        lemma_pct_encode_concat(a.drop_first(), b);
        assert(pct_encode(a + b) =~= pct_encode(a) + pct_encode(b));
    }
}

fn hex_digit_exec(v: u32) -> (r: char)
    requires
        v < 16,
    ensures
        r == hex_digit(v as int),
{
    if v == 0 { '0' } else if v == 1 { '1' } else if v == 2 { '2' } else if v == 3 { '3' }
    else if v == 4 { '4' } else if v == 5 { '5' } else if v == 6 { '6' } else if v == 7 { '7' }
    else if v == 8 { '8' } else if v == 9 { '9' } else if v == 10 { 'a' } else if v == 11 { 'b' }
    else if v == 12 { 'c' } else if v == 13 { 'd' } else if v == 14 { 'e' } else { 'f' }
}

fn push_pct_byte(out: &mut Vec<char>, b: u32)
    requires
        b < 256,
    ensures
        final(out)@ == old(out)@ + pct_byte(b as int),
{
    out.push('%');
    out.push(hex_digit_exec(b / 16));
    out.push(hex_digit_exec(b % 16));
    proof {
        assert(final(out)@ =~= old(out)@ + pct_byte(b as int));
    }
}

fn is_unreserved_exec(c: char) -> (r: bool)
    ensures
        r == is_unreserved(c),
{
    let v = c as u32;
    (48 <= v && v <= 57) || (65 <= v && v <= 90) || (97 <= v && v <= 122) || c == '-' || c == '.'
        || c == '_' || c == '~'
}

/// Append a text in its percent-encoded form.
pub fn push_pct_encoded(out: &mut Vec<char>, t: &Vec<char>)
    ensures
        final(out)@ == old(out)@ + pct_encode(t@),
{
    let mut k: usize = 0;
    proof {
        assert(t@.take(0) =~= Seq::<char>::empty());
        assert(out@ + pct_encode(t@.take(0)) =~= out@);
    }
    while k < t.len()
        invariant
            k <= t@.len(),
            out@ == old(out)@ + pct_encode(t@.take(k as int)),
        decreases t@.len() - k,
    {
        let c = t[k];
        let v = c as u32;
        if is_unreserved_exec(c) {
            out.push(c);
        } else if v < 0x80 {
            push_pct_byte(out, v);
        } else if v < 0x800 {
            push_pct_byte(out, 0xC0 + v / 64);
            push_pct_byte(out, 0x80 + v % 64);
        } else if v < 0x10000 {
            push_pct_byte(out, 0xE0 + v / 4096);
            push_pct_byte(out, 0x80 + (v / 64) % 64);
            push_pct_byte(out, 0x80 + v % 64);
        } else {
            proof {
                vstd::utf8::char_is_scalar(c);
            }
            push_pct_byte(out, 0xF0 + v / 262144);
            push_pct_byte(out, 0x80 + (v / 4096) % 64);
            push_pct_byte(out, 0x80 + (v / 64) % 64);
            push_pct_byte(out, 0x80 + v % 64);
        }
        proof {
            assert(t@.take(k + 1) =~= t@.take(k as int) + seq![t@[k as int]]);
            lemma_pct_encode_concat(t@.take(k as int), seq![t@[k as int]]);
            assert(pct_encode(seq![t@[k as int]]) =~= pct_encode_char(t@[k as int])) by {
                let single = seq![t@[k as int]];
                assert(single.drop_first() =~= Seq::<char>::empty());
                assert(pct_encode(Seq::<char>::empty()) =~= Seq::<char>::empty());
                assert(pct_encode(single) =~= pct_encode_char(single[0]) + Seq::<char>::empty());
            }
            assert(out@ =~= old(out)@ + pct_encode(t@.take(k + 1)));
        }
        k = k + 1;
    }
    proof {
        assert(t@.take(t@.len() as int) =~= t@);
    }
}

/// Decode the range `[i, end)` of a query component.
fn pct_decode_range(s: &Vec<char>, i: usize, end: usize) -> (r: Vec<char>)
    requires
        i <= end <= s@.len(),
    ensures
        r@ == pct_decode(s@.subrange(i as int, end as int)),
    decreases end - i,
{
    let mut out: Vec<char> = Vec::new();
    if i >= end {
        proof {
            assert(s@.subrange(i as int, end as int) =~= Seq::<char>::empty());
        }
        return out;
    }
    let ghost whole = s@.subrange(i as int, end as int);
    let c = s[i];
    proof {
        assert(whole[0] == c);
        assert(whole.len() == end - i);
    }
    if c == '+' {
        out.push(' ');
        let mut rest = pct_decode_range(s, i + 1, end);
        proof {
            assert(whole.drop_first() =~= s@.subrange(i + 1 as int, end as int));
        }
        out.append(&mut rest);
        proof {
            assert(out@ =~= pct_decode(whole));
        }
        return out;
    }
    if c == '%' && end - i >= 3 {
        proof {
            assert(whole[1] == s@[i + 1] && whole[2] == s@[i + 2]);
        }
        let h1 = crate::json::hex_val_exec(s[i + 1]);
        let h2 = crate::json::hex_val_exec(s[i + 2]);
        match (h1, h2) {
            (Some(a), Some(b)) => {
                let v: u32 = a * 16 + b;
                out.push((v as u8) as char);
                let mut rest = pct_decode_range(s, i + 3, end);
                proof {
                    assert(whole.skip(3) =~= s@.subrange(i + 3 as int, end as int));
                }
                out.append(&mut rest);
                proof {
                    assert(out@ =~= pct_decode(whole));
                }
                return out;
            },
            _ => {},
        }
    }
    out.push(c);
    let mut rest = pct_decode_range(s, i + 1, end);
    proof {
        assert(whole.drop_first() =~= s@.subrange(i + 1 as int, end as int));
        if c == '%' && whole.len() >= 3 && hex_val(whole[1]) is Some && hex_val(whole[2]) is Some {
            assert(false);
        }
    }
    out.append(&mut rest);
    proof {
        assert(out@ =~= pct_decode(whole));
    }
    out
}

// ---------------------------------------------------------------------------
// Query-parameter lookup
// ---------------------------------------------------------------------------
/// End of the current `key=value` pair: the next `&` or the end of the text.
pub open spec fn amp_end(q: Seq<char>, i: int) -> int
    decreases q.len() - i,
{
    if 0 <= i < q.len() && q[i] != '&' {
        amp_end(q, i + 1)
    } else {
        i
    }
}

pub proof fn lemma_amp_end_bounds(q: Seq<char>, i: int)
    requires
        0 <= i <= q.len(),
    ensures
        i <= amp_end(q, i) <= q.len(),
    decreases q.len() - i,
{
    if i < q.len() && q[i] != '&' {
        lemma_amp_end_bounds(q, i + 1);
    }
}

/// First `=` in `[i, e)`, or `e` when there is none.
pub open spec fn eq_pos(q: Seq<char>, i: int, e: int) -> int
    decreases e - i,
{
    if i < e && q[i] != '=' {
        eq_pos(q, i + 1, e)
    } else {
        i
    }
}

pub proof fn lemma_eq_pos_bounds(q: Seq<char>, i: int, e: int)
    requires
        i <= e,
    ensures
        i <= eq_pos(q, i, e) <= e,
    decreases e - i,
{
    if i < e && q[i] != '=' {
        lemma_eq_pos_bounds(q, i + 1, e);
    }
}

/// The decoded value of the first pair from `i` on whose decoded key is
/// `key`; a pair without `=` has the empty value.
pub open spec fn find_param(q: Seq<char>, i: int, key: Seq<char>) -> Option<Seq<char>>
    decreases q.len() - i,
{
    if !(0 <= i <= q.len()) {
        None
    } else {
        let e = amp_end(q, i);
        if !(i <= e <= q.len()) {
            None
        } else {
            let m = eq_pos(q, i, e);
            let rk = pct_decode(q.subrange(i, m));
            let rv = if m < e {
                pct_decode(q.subrange(m + 1, e))
            } else {
                Seq::empty()
            };
            if rk == key {
                Some(rv)
            } else if e < q.len() {
                find_param(q, e + 1, key)
            } else {
                None
            }
        }
    }
}

/// The decoded value of the first `key=value` pair of the query.
pub open spec fn query_param(q: Seq<char>, key: Seq<char>) -> Option<Seq<char>> {
    find_param(q, 0, key)
}

fn amp_skip(q: &Vec<char>, i: usize) -> (r: usize)
    requires
        i <= q@.len(),
    ensures
        r == amp_end(q@, i as int),
        i <= r <= q@.len(),
{
    let mut k = i;
    while k < q.len() && q[k] != '&'
        invariant
            i <= k <= q@.len(),
            amp_end(q@, i as int) == amp_end(q@, k as int),
        decreases q@.len() - k,
    {
        k = k + 1;
    }
    k
}

fn eq_skip(q: &Vec<char>, i: usize, e: usize) -> (r: usize)
    requires
        i <= e <= q@.len(),
    ensures
        r == eq_pos(q@, i as int, e as int),
        i <= r <= e,
{
    let mut k = i;
    while k < e && q[k] != '='
        invariant
            i <= k <= e <= q@.len(),
            eq_pos(q@, i as int, e as int) == eq_pos(q@, k as int, e as int),
        decreases e - k,
    {
        k = k + 1;
    }
    k
}

/// Look up a parameter of a query string by its decoded key.
pub fn find_param_exec(q: &Vec<char>, i: usize, key: &Vec<char>) -> (r: Option<Vec<char>>)
    requires
        i <= q@.len(),
    ensures
        match find_param(q@, i as int, key@) {
            Some(v) => r is Some && r->Some_0@ == v,
            None => r is None,
        },
    decreases q@.len() - i,
{
    let e = amp_skip(q, i);
    let m = eq_skip(q, i, e);
    let rk = pct_decode_range(q, i, m);
    if crate::credentials::chars_eq(&rk, key) {
        let rv = if m < e {
            pct_decode_range(q, m + 1, e)
        } else {
            Vec::new()
        };
        proof {
            if m >= e {
                assert(rv@ =~= Seq::<char>::empty());
            }
        }
        Some(rv)
    } else if e < q.len() {
        find_param_exec(q, e + 1, key)
    } else {
        None
    }
}

/// Look up a parameter of a query string given as a string slice.
pub fn query_param_exec(q: &str, key: &str) -> (r: Option<String>)
    ensures
        match query_param(q@, key@) {
            Some(v) => r is Some && r->Some_0@ == v,
            None => r is None,
        },
{
    let qv = str_to_chars(q);
    let kv = str_to_chars(key);
    match find_param_exec(&qv, 0, &kv) {
        Some(v) => Some(chars_to_string(&v)),
        None => None,
    }
}

// ---------------------------------------------------------------------------
// The request line of the redirect and the query of its path
// ---------------------------------------------------------------------------
/// End of a run of non-whitespace.
pub open spec fn nonws_end(s: Seq<char>, i: int) -> int
    decreases s.len() - i,
{
    if 0 <= i < s.len() && !is_ws(s[i]) {
        nonws_end(s, i + 1)
    } else {
        i
    }
}

pub proof fn lemma_nonws_end_bounds(s: Seq<char>, i: int)
    requires
        0 <= i <= s.len(),
    ensures
        i <= nonws_end(s, i) <= s.len(),
    decreases s.len() - i,
{
    if i < s.len() && !is_ws(s[i]) {
        lemma_nonws_end_bounds(s, i + 1);
    }
}

/// The second whitespace-separated word of an HTTP request line: the path
/// the browser asked for.
pub open spec fn request_path(line: Seq<char>) -> Option<Seq<char>> {
    let a = ws_end(line, 0);
    let b = nonws_end(line, a);
    let c = ws_end(line, b);
    let d = nonws_end(line, c);
    if b > a && d > c {
        Some(line.subrange(c, d))
    } else {
        None
    }
}

fn nonws_skip(s: &Vec<char>, i: usize) -> (r: usize)
    requires
        i <= s@.len(),
    ensures
        r == nonws_end(s@, i as int),
        i <= r <= s@.len(),
{
    let mut k = i;
    while k < s.len() && !is_ws_exec(s[k])
        invariant
            i <= k <= s@.len(),
            nonws_end(s@, i as int) == nonws_end(s@, k as int),
        decreases s@.len() - k,
    {
        k = k + 1;
    }
    k
}

/// The path of a request line, as the specification says.
pub fn request_path_exec(line: &str) -> (r: Option<String>)
    ensures
        match request_path(line@) {
            Some(p) => r is Some && r->Some_0@ == p,
            None => r is None,
        },
{
    let lv = str_to_chars(line);
    let a = ws_skip(&lv, 0);
    let b = nonws_skip(&lv, a);
    let c = ws_skip(&lv, b);
    let d = nonws_skip(&lv, c);
    if b > a && d > c {
        let mut out: Vec<char> = Vec::new();
        let mut k = c;
        while k < d
            invariant
                c <= k <= d <= lv@.len(),
                out@ == lv@.subrange(c as int, k as int),
            decreases d - k,
        {
            out.push(lv[k]);
            proof {
                assert(out@ =~= lv@.subrange(c as int, k + 1 as int));
            }
            k = k + 1;
        }
        Some(chars_to_string(&out))
    } else {
        None
    }
}

/// First `?` of a path, or its end.
pub open spec fn qmark_pos(p: Seq<char>, i: int) -> int
    decreases p.len() - i,
{
    if 0 <= i < p.len() && p[i] != '?' {
        qmark_pos(p, i + 1)
    } else {
        i
    }
}

pub proof fn lemma_qmark_pos_bounds(p: Seq<char>, i: int)
    requires
        0 <= i <= p.len(),
    ensures
        i <= qmark_pos(p, i) <= p.len(),
    decreases p.len() - i,
{
    if i < p.len() && p[i] != '?' {
        lemma_qmark_pos_bounds(p, i + 1);
    }
}

/// The query part of a path: what follows the first `?`, empty if none.
pub open spec fn query_of_path(p: Seq<char>) -> Seq<char> {
    let q = qmark_pos(p, 0);
    if q < p.len() {
        p.subrange(q + 1, p.len() as int)
    } else {
        Seq::empty()
    }
}

/// The query part of a path, as the specification says.
pub fn query_of_path_exec(p: &str) -> (r: String)
    ensures
        r@ == query_of_path(p@),
{
    let pv = str_to_chars(p);
    let mut k: usize = 0;
    while k < pv.len() && pv[k] != '?'
        invariant
            k <= pv@.len(),
            qmark_pos(pv@, 0) == qmark_pos(pv@, k as int),
        decreases pv@.len() - k,
    {
        k = k + 1;
    }
    if k < pv.len() {
        let mut out: Vec<char> = Vec::new();
        let mut m = k + 1;
        while m < pv.len()
            invariant
                k + 1 <= m <= pv@.len(),
                out@ == pv@.subrange(k + 1 as int, m as int),
            decreases pv@.len() - m,
        {
            out.push(pv[m]);
            proof {
                assert(out@ =~= pv@.subrange(k + 1 as int, m + 1 as int));
            }
            m = m + 1;
        }
        chars_to_string(&out)
    } else {
        let out: Vec<char> = Vec::new();
        proof {
            assert(out@ =~= query_of_path(pv@));
        }
        chars_to_string(&out)
    }
}

// ---------------------------------------------------------------------------
// The port of a loopback redirect URI
// ---------------------------------------------------------------------------
/// Position of the `://` separating the scheme, or the end of the text.
pub open spec fn scheme_sep(u: Seq<char>, i: int) -> int
    decreases u.len() - i,
{
    if 0 <= i && i + 3 <= u.len() {
        if u[i] == ':' && u[i + 1] == '/' && u[i + 2] == '/' {
            i
        } else {
            scheme_sep(u, i + 1)
        }
    } else {
        u.len() as int
    }
}

/// End of the authority part: the first `/`, `?` or `#` after it.
pub open spec fn auth_end(u: Seq<char>, i: int) -> int
    decreases u.len() - i,
{
    if 0 <= i < u.len() && u[i] != '/' && u[i] != '?' && u[i] != '#' {
        auth_end(u, i + 1)
    } else {
        i
    }
}

/// First `:` in `[i, e)`, or `e` when there is none.
pub open spec fn colon_pos(u: Seq<char>, i: int, e: int) -> int
    decreases e - i,
{
    if i < e && u[i] != ':' {
        colon_pos(u, i + 1, e)
    } else {
        i
    }
}

/// The explicit port of a URI of the plain `scheme://host:port/...` shape
/// that a loopback redirect URI has; `None` when no port is written.
pub open spec fn port_of_uri(u: Seq<char>) -> Option<u16> {
    let sp = scheme_sep(u, 0);
    if sp + 3 <= u.len() {
        let a = sp + 3;
        let b = auth_end(u, a);
        let m = colon_pos(u, a, b);
        if m < b {
            let j = digits_end(u, m + 1);
            if j == b && j > m + 1 {
                let v = digits_val(u, m + 1, b);
                if 0 < v <= 65535 {
                    Some(v as u16)
                } else {
                    None
                }
            } else {
                None
            }
        } else {
            None
        }
    } else {
        None
    }
}

/// The explicit port of a redirect URI, as the specification says.
#[verifier::loop_isolation(false)]
pub fn port_of_uri_exec(u: &str) -> (r: Option<u16>)
    ensures
        r == port_of_uri(u@),
{
    let uv = str_to_chars(u);
    let n = uv.len();
    if n < 3 {
        proof {
            assert(scheme_sep(uv@, 0) == n);
        }
        return None;
    }
    // Find `://`.
    let mut i: usize = 0;
    while i <= n - 3 && !(uv[i] == ':' && uv[i + 1] == '/' && uv[i + 2] == '/')
        invariant
            i <= n,
            scheme_sep(uv@, 0) == scheme_sep(uv@, i as int),
        decreases n - i,
    {
        i = i + 1;
    }
    if i > n - 3 {
        proof {
            assert(scheme_sep(uv@, i as int) == n);
        }
        return None;
    }
    let a = i + 3;
    // Find the end of the authority.
    let mut b = a;
    while b < n && uv[b] != '/' && uv[b] != '?' && uv[b] != '#'
        invariant
            a <= b <= n,
            auth_end(uv@, a as int) == auth_end(uv@, b as int),
        decreases n - b,
    {
        b = b + 1;
    }
    // Find the colon before the port.
    let mut m = a;
    while m < b && uv[m] != ':'
        invariant
            a <= m <= b,
            colon_pos(uv@, a as int, b as int) == colon_pos(uv@, m as int, b as int),
        decreases b - m,
    {
        m = m + 1;
    }
    if m >= b {
        return None;
    }
    // Read the digits of the port.
    let mut k = m + 1;
    let mut acc: u32 = 0;
    while k < b && is_digit_exec(uv[k]) && acc <= 65535
        invariant
            m + 1 <= k <= b,
            acc <= 65535 ==> acc == digits_val(uv@, m + 1 as int, k as int),
            acc > 65535 ==> digits_val(uv@, m + 1 as int, k as int) > 65535,
            forall|q: int| m + 1 <= q < k ==> is_digit(#[trigger] uv@[q]),
        decreases b - k,
    {
        let d = (uv[k] as u32 - 48);
        let ghost oldacc = acc;
        if acc > 6554 {
            acc = 70000;
        } else {
            acc = acc * 10 + d;
        }
        proof {
            assert(digits_val(uv@, m + 1 as int, k + 1 as int) == oldacc * 10 + digit_val(
                uv@[k as int],
            ));
        }
        k = k + 1;
    }
    proof {
        crate::json::lemma_digits_end_lower(uv@, m + 1 as int, k as int);
    }
    if k < b && acc <= 65535 {
        // A non-digit inside the would-be port: no valid port.
        proof {
            crate::json::lemma_digits_end_of_run(uv@, m + 1 as int, k as int);
        }
        return None;
    }
    if acc > 65535 {
        // The digit prefix already exceeds the largest port number.
        proof {
            let j = digits_end(uv@, m + 1 as int);
            lemma_digits_end_bounds(uv@, m + 1 as int);
            crate::json::lemma_digits_in_run(uv@, m + 1 as int, j);
            crate::json::lemma_digits_val_mono(uv@, m + 1 as int, k as int, j);
        }
        return None;
    }
    proof {
        crate::json::lemma_digits_end_of_run(uv@, m + 1 as int, k as int);
    }
    if k == m + 1 {
        return None;
    }
    if acc == 0 {
        return None;
    }
    Some(acc as u16)
}

// ---------------------------------------------------------------------------
// The texts the flow sends out
// ---------------------------------------------------------------------------
/// The one-line HTTP response the listener sends back to the browser.
pub open spec fn http_ok_text(body: Seq<char>) -> Seq<char> {
    "HTTP/1.1 200 OK\r\ncontent-length: "@ + render_int(body.len() as int) + "\r\n\r\n"@ + body
}

/// Build the listener's HTTP response around a short ASCII page.
pub fn http_ok_response(body: &str) -> (r: String)
    requires
        body@.len() <= 0x7fffffff,
    ensures
        r@ == http_ok_text(body@),
{
    let mut out: Vec<char> = Vec::new();
    crate::json::push_str_chars(&mut out, "HTTP/1.1 200 OK\r\ncontent-length: ");
    let n = body.unicode_len();
    crate::json::push_int(&mut out, n as i64);
    crate::json::push_str_chars(&mut out, "\r\n\r\n");
    let mut bv = str_to_chars(body);
    out.append(&mut bv);
    proof {
        assert(out@ =~= http_ok_text(body@));
    }
    chars_to_string(&out)
}

/// Scopes joined by single spaces, as the scope parameter carries them.
pub open spec fn join_scopes(ss: Seq<Seq<char>>) -> Seq<char>
    decreases ss.len(),
{
    if ss.len() == 0 {
        Seq::empty()
    } else if ss.len() == 1 {
        ss[0]
    } else {
        ss[0] + seq![' '] + join_scopes(ss.drop_first())
    }
}

proof fn lemma_join_scopes_push(ss: Seq<Seq<char>>, x: Seq<char>)
    ensures
        join_scopes(ss.push(x)) == if ss.len() == 0 {
            x
        } else {
            join_scopes(ss) + seq![' '] + x
        },
    decreases ss.len(),
{
    if ss.len() == 0 {
        assert(ss.push(x).len() == 1);
        assert(join_scopes(ss.push(x)) == ss.push(x)[0]);
        assert(ss.push(x)[0] == x);
    } else {
        assert(ss.push(x).drop_first() =~= ss.drop_first().push(x));
        lemma_join_scopes_push(ss.drop_first(), x);
        if ss.len() == 1 {
            assert(ss.drop_first().len() == 0);
            assert(join_scopes(ss.push(x)) =~= join_scopes(ss) + seq![' '] + x);
        } else {
            assert(join_scopes(ss.push(x)) =~= join_scopes(ss) + seq![' '] + x);
        }
    }
}

/// Join the requested scopes with spaces.
pub fn join_scopes_exec(scopes: &Vec<String>) -> (r: String)
    ensures
        r@ == join_scopes(scopes.deep_view()),
{
    let mut out: Vec<char> = Vec::new();
    let mut k: usize = 0;
    proof {
        assert(scopes.deep_view().take(0) =~= Seq::<Seq<char>>::empty());
    }
    while k < scopes.len()
        invariant
            k <= scopes@.len(),
            scopes.deep_view().len() == scopes@.len(),
            forall|m: int|
                0 <= m < scopes@.len() ==> scopes.deep_view()[m] == #[trigger] scopes@[m]@,
            out@ == join_scopes(scopes.deep_view().take(k as int)),
        decreases scopes@.len() - k,
    {
        if k > 0 {
            out.push(' ');
        }
        let mut sv = str_to_chars(scopes[k].as_str());
        out.append(&mut sv);
        proof {
            let dv = scopes.deep_view();
            assert(dv.take(k + 1) =~= dv.take(k as int).push(dv[k as int]));
            lemma_join_scopes_push(dv.take(k as int), dv[k as int]);
            assert(out@ =~= join_scopes(dv.take(k + 1)));
        }
        k = k + 1;
    }
    proof {
        assert(scopes.deep_view().take(scopes@.len() as int) =~= scopes.deep_view());
    }
    chars_to_string(&out)
}

/// The authorize URL: endpoint, response type, client id, redirect URI,
/// scopes, PKCE challenge with its method, and the CSRF state.
pub open spec fn authorize_url_text(
    endpoint: Seq<char>,
    client_id: Seq<char>,
    redirect_uri: Seq<char>,
    scopes: Seq<char>,
    challenge: Seq<char>,
    state: Seq<char>,
) -> Seq<char> {
    endpoint + "?response_type=code&client_id="@ + pct_encode(client_id) + "&redirect_uri="@
        + pct_encode(redirect_uri) + "&scope="@ + pct_encode(scopes)
        + "&code_challenge_method=S256&code_challenge="@ + pct_encode(challenge) + "&state="@
        + pct_encode(state)
}

/// The same URL with every secret replaced by a placeholder: the form that
/// may be echoed to the user.
pub open spec fn redacted_authorize_url_text(
    endpoint: Seq<char>,
    redirect_uri: Seq<char>,
    scopes: Seq<char>,
) -> Seq<char> {
    endpoint + "?response_type=code&client_id="@ + "REDACTED"@ + "&redirect_uri="@ + pct_encode(
        redirect_uri,
    ) + "&scope="@ + pct_encode(scopes) + "&code_challenge_method=S256&code_challenge="@
        + "REDACTED"@ + "&state="@ + "REDACTED"@
}

/// Build the authorize URL.
#[verifier::rlimit(60)]
pub fn build_authorize_url(
    endpoint: &str,
    client_id: &str,
    redirect_uri: &str,
    scopes: &str,
    challenge: &str,
    state: &str,
) -> (r: String)
    ensures
        r@ == authorize_url_text(endpoint@, client_id@, redirect_uri@, scopes@, challenge@, state@),
{
    let mut out: Vec<char> = Vec::new();
    let mut ev = str_to_chars(endpoint);
    out.append(&mut ev);
    crate::json::push_str_chars(&mut out, "?response_type=code&client_id=");
    let cv = str_to_chars(client_id);
    push_pct_encoded(&mut out, &cv);
    crate::json::push_str_chars(&mut out, "&redirect_uri=");
    let rv = str_to_chars(redirect_uri);
    push_pct_encoded(&mut out, &rv);
    crate::json::push_str_chars(&mut out, "&scope=");
    let sv = str_to_chars(scopes);
    push_pct_encoded(&mut out, &sv);
    crate::json::push_str_chars(&mut out, "&code_challenge_method=S256&code_challenge=");
    let hv = str_to_chars(challenge);
    push_pct_encoded(&mut out, &hv);
    crate::json::push_str_chars(&mut out, "&state=");
    let tv = str_to_chars(state);
    push_pct_encoded(&mut out, &tv);
    proof {
        assert(out@ =~= authorize_url_text(
            endpoint@,
            client_id@,
            redirect_uri@,
            scopes@,
            challenge@,
            state@,
        ));
    }
    chars_to_string(&out)
}

/// Build the redacted authorize URL for echoing.
#[verifier::rlimit(60)]
pub fn build_redacted_authorize_url(endpoint: &str, redirect_uri: &str, scopes: &str) -> (r:
    String)
    ensures
        r@ == redacted_authorize_url_text(endpoint@, redirect_uri@, scopes@),
{
    let mut out: Vec<char> = Vec::new();
    let mut ev = str_to_chars(endpoint);
    out.append(&mut ev);
    crate::json::push_str_chars(&mut out, "?response_type=code&client_id=");
    crate::json::push_str_chars(&mut out, "REDACTED");
    crate::json::push_str_chars(&mut out, "&redirect_uri=");
    let rv = str_to_chars(redirect_uri);
    push_pct_encoded(&mut out, &rv);
    crate::json::push_str_chars(&mut out, "&scope=");
    let sv = str_to_chars(scopes);
    push_pct_encoded(&mut out, &sv);
    crate::json::push_str_chars(&mut out, "&code_challenge_method=S256&code_challenge=");
    crate::json::push_str_chars(&mut out, "REDACTED");
    crate::json::push_str_chars(&mut out, "&state=");
    crate::json::push_str_chars(&mut out, "REDACTED");
    proof {
        assert(out@ =~= redacted_authorize_url_text(endpoint@, redirect_uri@, scopes@));
    }
    chars_to_string(&out)
}

/// The form body that trades an authorization code for tokens.
pub open spec fn exchange_body_text(
    code: Seq<char>,
    verifier: Seq<char>,
    redirect_uri: Seq<char>,
    client_id: Seq<char>,
    client_secret: Seq<char>,
) -> Seq<char> {
    "grant_type=authorization_code&code="@ + pct_encode(code) + "&code_verifier="@ + pct_encode(
        verifier,
    ) + "&redirect_uri="@ + pct_encode(redirect_uri) + "&client_id="@ + pct_encode(client_id)
        + "&client_secret="@ + pct_encode(client_secret)
}

/// The form body that trades a refresh token for a new access token.
pub open spec fn refresh_body_text(
    refresh_token: Seq<char>,
    client_id: Seq<char>,
    client_secret: Seq<char>,
) -> Seq<char> {
    "grant_type=refresh_token&refresh_token="@ + pct_encode(refresh_token) + "&client_id="@
        + pct_encode(client_id) + "&client_secret="@ + pct_encode(client_secret)
}

/// Build the exchange form body.
#[verifier::rlimit(60)]
pub fn build_exchange_body(
    code: &str,
    verifier: &str,
    redirect_uri: &str,
    client_id: &str,
    client_secret: &str,
) -> (r: String)
    ensures
        r@ == exchange_body_text(code@, verifier@, redirect_uri@, client_id@, client_secret@),
{
    let mut out: Vec<char> = Vec::new();
    crate::json::push_str_chars(&mut out, "grant_type=authorization_code&code=");
    let cv = str_to_chars(code);
    push_pct_encoded(&mut out, &cv);
    crate::json::push_str_chars(&mut out, "&code_verifier=");
    let vv = str_to_chars(verifier);
    push_pct_encoded(&mut out, &vv);
    crate::json::push_str_chars(&mut out, "&redirect_uri=");
    let rv = str_to_chars(redirect_uri);
    push_pct_encoded(&mut out, &rv);
    crate::json::push_str_chars(&mut out, "&client_id=");
    let iv = str_to_chars(client_id);
    push_pct_encoded(&mut out, &iv);
    crate::json::push_str_chars(&mut out, "&client_secret=");
    let sv = str_to_chars(client_secret);
    push_pct_encoded(&mut out, &sv);
    proof {
        assert(out@ =~= exchange_body_text(code@, verifier@, redirect_uri@, client_id@,
            client_secret@));
    }
    chars_to_string(&out)
}

/// Build the refresh form body.
#[verifier::rlimit(60)]
pub fn build_refresh_body(refresh_token: &str, client_id: &str, client_secret: &str) -> (r: String)
    ensures
        r@ == refresh_body_text(refresh_token@, client_id@, client_secret@),
{
    let mut out: Vec<char> = Vec::new();
    crate::json::push_str_chars(&mut out, "grant_type=refresh_token&refresh_token=");
    let tv = str_to_chars(refresh_token);
    push_pct_encoded(&mut out, &tv);
    crate::json::push_str_chars(&mut out, "&client_id=");
    let iv = str_to_chars(client_id);
    push_pct_encoded(&mut out, &iv);
    crate::json::push_str_chars(&mut out, "&client_secret=");
    let sv = str_to_chars(client_secret);
    push_pct_encoded(&mut out, &sv);
    proof {
        assert(out@ =~= refresh_body_text(refresh_token@, client_id@, client_secret@));
    }
    chars_to_string(&out)
}

} // verus!
