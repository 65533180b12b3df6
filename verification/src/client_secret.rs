//! The client-secret file: a JSON object whose `web` object carries the
//! registered `client_id` and `client_secret`. The parser here is the
//! compute half of loading such a file; reading it from disk stays with
//! the caller.

use vstd::prelude::*;
use crate::chars::{str_to_chars, chars_to_string};
use crate::json::{ws_end, parse_string, parse_value};
use crate::credentials::chars_eq;

verus! {

pub open spec fn web_key() -> Seq<char> {
    seq!['w', 'e', 'b']
}

pub open spec fn cid_key() -> Seq<char> {
    seq!['c', 'l', 'i', 'e', 'n', 't', '_', 'i', 'd']
}

pub open spec fn csec_key() -> Seq<char> {
    seq!['c', 'l', 'i', 'e', 'n', 't', '_', 's', 'e', 'c', 'r', 'e', 't']
}

/// The two fields gathered from the `web` object.
pub struct SecPartialV {
    pub id: Option<Seq<char>>,
    pub secret: Option<Seq<char>>,
}

pub open spec fn empty_sec_partial() -> SecPartialV {
    SecPartialV { id: None, secret: None }
}

/// One or more members of the `web` object followed by `}`: `client_id`
/// and `client_secret` must be strings and must not repeat; anything else
/// is skipped.
pub open spec fn parse_sec_fields(s: Seq<char>, i: int, p: SecPartialV) -> Option<
    (SecPartialV, int),
>
    decreases s.len() - i,
{
    let j1 = ws_end(s, i);
    if !(i <= j1) {
        None
    } else {
        match parse_string(s, j1) {
            None => None,
            Some((key, j2)) => {
                let j3 = ws_end(s, j2);
                if !(j2 <= j3 && j3 < s.len() && s[j3] == ':') {
                    None
                } else {
                    let j4 = j3 + 1;
                    if !(i < j4 && j4 <= s.len()) {
                        None
                    } else {
                        let parsed: Option<(SecPartialV, int)> = if key == cid_key() {
                            if p.id is Some {
                                None
                            } else {
                                let jw = ws_end(s, j4);
                                match parse_string(s, jw) {
                                    Some((t, j5)) => Some(
                                        (SecPartialV { id: Some(t), ..p }, j5),
                                    ),
                                    None => None,
                                }
                            }
                        } else if key == csec_key() {
                            if p.secret is Some {
                                None
                            } else {
                                let jw = ws_end(s, j4);
                                match parse_string(s, jw) {
                                    Some((t, j5)) => Some(
                                        (SecPartialV { secret: Some(t), ..p }, j5),
                                    ),
                                    None => None,
                                }
                            }
                        } else {
                            match parse_value(s, j4) {
                                Some((_v, j5)) => Some((p, j5)),
                                None => None,
                            }
                        };
                        match parsed {
                            None => None,
                            Some((p2, j5)) => {
                                let j6 = ws_end(s, j5);
                                if !(j5 <= j6 && j6 < s.len()) {
                                    None
                                } else if s[j6] == '}' {
                                    Some((p2, j6 + 1))
                                } else if s[j6] == ',' {
                                    let j7 = j6 + 1;
                                    if !(i < j7 && j7 <= s.len()) {
                                        None
                                    } else {
                                        parse_sec_fields(s, j7, p2)
                                    }
                                } else {
                                    None
                                }
                            },
                        }
                    }
                }
            },
        }
    }
}

/// The `web` value: an object read by `parse_sec_fields`.
pub open spec fn parse_web_value(s: Seq<char>, i: int) -> Option<(SecPartialV, int)> {
    let j = ws_end(s, i);
    if !(i <= j && j < s.len() && s[j] == '{') {
        None
    } else {
        let j1 = ws_end(s, j + 1);
        if !(j + 1 <= j1 && j1 < s.len()) {
            None
        } else if s[j1] == '}' {
            Some((empty_sec_partial(), j1 + 1))
        } else {
            parse_sec_fields(s, j + 1, empty_sec_partial())
        }
    }
}

/// One or more top-level members followed by `}`: `web` must be an object
/// and must not repeat; anything else is skipped.
pub open spec fn parse_top_fields(s: Seq<char>, i: int, web: Option<SecPartialV>) -> Option<
    (Option<SecPartialV>, int),
>
    decreases s.len() - i,
{
    let j1 = ws_end(s, i);
    if !(i <= j1) {
        None
    } else {
        match parse_string(s, j1) {
            None => None,
            Some((key, j2)) => {
                let j3 = ws_end(s, j2);
                if !(j2 <= j3 && j3 < s.len() && s[j3] == ':') {
                    None
                } else {
                    let j4 = j3 + 1;
                    if !(i < j4 && j4 <= s.len()) {
                        None
                    } else {
                        let parsed: Option<(Option<SecPartialV>, int)> = if key == web_key() {
                            if web is Some {
                                None
                            } else {
                                match parse_web_value(s, j4) {
                                    Some((p, j5)) => Some((Some(p), j5)),
                                    None => None,
                                }
                            }
                        } else {
                            match parse_value(s, j4) {
                                Some((_v, j5)) => Some((web, j5)),
                                None => None,
                            }
                        };
                        match parsed {
                            None => None,
                            Some((web2, j5)) => {
                                let j6 = ws_end(s, j5);
                                if !(j5 <= j6 && j6 < s.len()) {
                                    None
                                } else if s[j6] == '}' {
                                    Some((web2, j6 + 1))
                                } else if s[j6] == ',' {
                                    let j7 = j6 + 1;
                                    if !(i < j7 && j7 <= s.len()) {
                                        None
                                    } else {
                                        parse_top_fields(s, j7, web2)
                                    }
                                } else {
                                    None
                                }
                            },
                        }
                    }
                }
            },
        }
    }
}

/// Which texts are a usable client-secret file, and the id and secret they
/// hold.
pub open spec fn parse_client_secret_text(s: Seq<char>) -> Option<(Seq<char>, Seq<char>)> {
    let j0 = ws_end(s, 0);
    if !(0 <= j0 && j0 < s.len() && s[j0] == '{') {
        None
    } else {
        let j1 = ws_end(s, j0 + 1);
        if !(j0 + 1 <= j1 && j1 < s.len()) {
            None
        } else if s[j1] == '}' {
            None
        } else {
            match parse_top_fields(s, j0 + 1, None) {
                Some((web, j)) => if ws_end(s, j) == s.len() {
                    match web {
                        Some(p) => match (p.id, p.secret) {
                            (Some(id), Some(sec)) => Some((id, sec)),
                            _ => None,
                        },
                        None => None,
                    }
                } else {
                    None
                },
                None => None,
            }
        }
    }
}

// ---------------------------------------------------------------------------
// Executable parser
// ---------------------------------------------------------------------------
struct SecPartial {
    id: Option<Vec<char>>,
    secret: Option<Vec<char>>,
}

impl SecPartial {
    spec fn v(&self) -> SecPartialV {
        SecPartialV {
            id: match self.id {
                Some(t) => Some(t@),
                None => None,
            },
            secret: match self.secret {
                Some(t) => Some(t@),
                None => None,
            },
        }
    }
}

fn web_key_chars() -> (r: Vec<char>)
    ensures
        r@ == web_key(),
{
    let v = str_to_chars("web");
    proof {
        reveal_strlit("web");
        assert(v@ =~= web_key());
    }
    v
}

fn cid_key_chars() -> (r: Vec<char>)
    ensures
        r@ == cid_key(),
{
    let v = str_to_chars("client_id");
    proof {
        reveal_strlit("client_id");
        assert(v@ =~= cid_key());
    }
    v
}

fn csec_key_chars() -> (r: Vec<char>)
    ensures
        r@ == csec_key(),
{
    let v = str_to_chars("client_secret");
    proof {
        reveal_strlit("client_secret");
        assert(v@ =~= csec_key());
    }
    v
}

proof fn lemma_parse_sec_fields_bounds(s: Seq<char>, i: int, p: SecPartialV)
    requires
        0 <= i <= s.len(),
    ensures
        parse_sec_fields(s, i, p) is Some ==> i < parse_sec_fields(s, i, p)->Some_0.1 <= s.len(),
    decreases s.len() - i,
{
    crate::json::lemma_ws_end_bounds(s, i);
    let j1 = ws_end(s, i);
    if i <= j1 && parse_string(s, j1) is Some {
        let (key, j2) = parse_string(s, j1)->Some_0;
        crate::json::lemma_parse_string_bounds(s, j1);
        crate::json::lemma_ws_end_bounds(s, j2);
        let j3 = ws_end(s, j2);
        if j2 <= j3 && j3 < s.len() && s[j3] == ':' {
            let j4 = j3 + 1;
            if i < j4 && j4 <= s.len() {
                crate::json::lemma_ws_end_bounds(s, j4);
                crate::json::lemma_parse_string_bounds(s, ws_end(s, j4));
                crate::json::lemma_parse_value_bounds(s, j4);
                let parsed: Option<(SecPartialV, int)> = if key == cid_key() {
                    if p.id is Some {
                        None
                    } else {
                        match parse_string(s, ws_end(s, j4)) {
                            Some((t, j5)) => Some((SecPartialV { id: Some(t), ..p }, j5)),
                            None => None,
                        }
                    }
                } else if key == csec_key() {
                    if p.secret is Some {
                        None
                    } else {
                        match parse_string(s, ws_end(s, j4)) {
                            Some((t, j5)) => Some((SecPartialV { secret: Some(t), ..p }, j5)),
                            None => None,
                        }
                    }
                } else {
                    match parse_value(s, j4) {
                        Some((_v, j5)) => Some((p, j5)),
                        None => None,
                    }
                };
                if parsed is Some {
                    let (p2, j5) = parsed->Some_0;
                    crate::json::lemma_ws_end_bounds(s, j5);
                    let j6 = ws_end(s, j5);
                    if j5 <= j6 && j6 < s.len() && s[j6] == ',' {
                        let j7 = j6 + 1;
                        if i < j7 && j7 <= s.len() {
                            lemma_parse_sec_fields_bounds(s, j7, p2);
                        }
                    }
                }
            }
        }
    }
}

proof fn lemma_parse_web_value_bounds(s: Seq<char>, i: int)
    requires
        0 <= i <= s.len(),
    ensures
        parse_web_value(s, i) is Some ==> i < parse_web_value(s, i)->Some_0.1 <= s.len(),
{
    crate::json::lemma_ws_end_bounds(s, i);
    let j = ws_end(s, i);
    if i <= j && j < s.len() && s[j] == '{' {
        crate::json::lemma_ws_end_bounds(s, j + 1);
        lemma_parse_sec_fields_bounds(s, j + 1, empty_sec_partial());
    }
}

fn parse_sec_fields_exec(s: &Vec<char>, i: usize, p: SecPartial) -> (r: Option<
    (SecPartial, usize),
>)
    requires
        i <= s@.len(),
    ensures
        match parse_sec_fields(s@, i as int, p.v()) {
            Some((q, j)) => r is Some && r->Some_0.0.v() == q && r->Some_0.1 == j as usize,
            None => r is None,
        },
    decreases s@.len() - i,
{
    let mut p = p;
    let j1 = crate::json::ws_skip(s, i);
    let (key, j2) = match crate::json::parse_string_exec(s, j1) {
        Some(kj) => kj,
        None => {
            return None;
        },
    };
    proof {
        crate::json::lemma_parse_string_bounds(s@, j1 as int);
    }
    let j3 = crate::json::ws_skip(s, j2);
    if j3 >= s.len() || s[j3] != ':' {
        return None;
    }
    let j4 = j3 + 1;
    let j5 = if chars_eq(&key, &cid_key_chars()) {
        if p.id.is_some() {
            return None;
        }
        let jw = crate::json::ws_skip(s, j4);
        match crate::json::parse_string_exec(s, jw) {
            Some((t, j5)) => {
                proof {
                    crate::json::lemma_parse_string_bounds(s@, jw as int);
                }
                p.id = Some(t);
                j5
            },
            None => {
                return None;
            },
        }
    } else if chars_eq(&key, &csec_key_chars()) {
        if p.secret.is_some() {
            return None;
        }
        let jw = crate::json::ws_skip(s, j4);
        match crate::json::parse_string_exec(s, jw) {
            Some((t, j5)) => {
                proof {
                    crate::json::lemma_parse_string_bounds(s@, jw as int);
                }
                p.secret = Some(t);
                j5
            },
            None => {
                return None;
            },
        }
    } else {
        match crate::json::skip_value(s, j4) {
            Some(j5) => j5,
            None => {
                return None;
            },
        }
    };
    let j6 = crate::json::ws_skip(s, j5);
    if j6 >= s.len() {
        return None;
    }
    if s[j6] == '}' {
        Some((p, j6 + 1))
    } else if s[j6] == ',' {
        parse_sec_fields_exec(s, j6 + 1, p)
    } else {
        None
    }
}

fn parse_top_fields_exec(s: &Vec<char>, i: usize, web: Option<SecPartial>) -> (r: Option<
    (Option<SecPartial>, usize),
>)
    requires
        i <= s@.len(),
    ensures
        match parse_top_fields(
            s@,
            i as int,
            match web {
                Some(p) => Some(p.v()),
                None => None,
            },
        ) {
            Some((w, j)) => {
                &&& r is Some
                &&& r->Some_0.1 == j as usize
                &&& match r->Some_0.0 {
                    Some(p) => w == Some(p.v()),
                    None => w is None,
                }
            },
            None => r is None,
        },
    decreases s@.len() - i,
{
    let j1 = crate::json::ws_skip(s, i);
    let (key, j2) = match crate::json::parse_string_exec(s, j1) {
        Some(kj) => kj,
        None => {
            return None;
        },
    };
    proof {
        crate::json::lemma_parse_string_bounds(s@, j1 as int);
    }
    let j3 = crate::json::ws_skip(s, j2);
    if j3 >= s.len() || s[j3] != ':' {
        return None;
    }
    let j4 = j3 + 1;
    let (web2, j5) = if chars_eq(&key, &web_key_chars()) {
        if web.is_some() {
            return None;
        }
        let j = crate::json::ws_skip(s, j4);
        if j >= s.len() || s[j] != '{' {
            return None;
        }
        let j1w = crate::json::ws_skip(s, j + 1);
        if j1w >= s.len() {
            return None;
        }
        if s[j1w] == '}' {
            (Some(SecPartial { id: None, secret: None }), j1w + 1)
        } else {
            match parse_sec_fields_exec(s, j + 1, SecPartial { id: None, secret: None }) {
                Some((p, j5)) => {
                    proof {
                        lemma_parse_sec_fields_bounds(s@, j + 1 as int, empty_sec_partial());
                    }
                    (Some(p), j5)
                },
                None => {
                    return None;
                },
            }
        }
    } else {
        match crate::json::skip_value(s, j4) {
            Some(j5) => (web, j5),
            None => {
                return None;
            },
        }
    };
    let j6 = crate::json::ws_skip(s, j5);
    if j6 >= s.len() {
        return None;
    }
    if s[j6] == '}' {
        Some((web2, j6 + 1))
    } else if s[j6] == ',' {
        parse_top_fields_exec(s, j6 + 1, web2)
    } else {
        None
    }
}

proof fn lemma_parse_top_fields_bounds(s: Seq<char>, i: int, web: Option<SecPartialV>)
    requires
        0 <= i <= s.len(),
    ensures
        parse_top_fields(s, i, web) is Some ==> i < parse_top_fields(s, i, web)->Some_0.1
            <= s.len(),
    decreases s.len() - i,
{
    crate::json::lemma_ws_end_bounds(s, i);
    let j1 = ws_end(s, i);
    if i <= j1 && parse_string(s, j1) is Some {
        let (key, j2) = parse_string(s, j1)->Some_0;
        crate::json::lemma_parse_string_bounds(s, j1);
        crate::json::lemma_ws_end_bounds(s, j2);
        let j3 = ws_end(s, j2);
        if j2 <= j3 && j3 < s.len() && s[j3] == ':' {
            let j4 = j3 + 1;
            if i < j4 && j4 <= s.len() {
                lemma_parse_web_value_bounds(s, j4);
                crate::json::lemma_parse_value_bounds(s, j4);
                let parsed: Option<(Option<SecPartialV>, int)> = if key == web_key() {
                    if web is Some {
                        None
                    } else {
                        match parse_web_value(s, j4) {
                            Some((p, j5)) => Some((Some(p), j5)),
                            None => None,
                        }
                    }
                } else {
                    match parse_value(s, j4) {
                        Some((_v, j5)) => Some((web, j5)),
                        None => None,
                    }
                };
                if parsed is Some {
                    let (web2, j5) = parsed->Some_0;
                    crate::json::lemma_ws_end_bounds(s, j5);
                    let j6 = ws_end(s, j5);
                    if j5 <= j6 && j6 < s.len() && s[j6] == ',' {
                        let j7 = j6 + 1;
                        if i < j7 && j7 <= s.len() {
                            lemma_parse_top_fields_bounds(s, j7, web2);
                        }
                    }
                }
            }
        }
    }
}

/// Parse a client-secret file's text into its registered id and secret;
/// `None` means the text is not a usable client-secret file.
pub fn parse_client_secret(content: &str) -> (r: Option<(String, String)>)
    ensures
        match parse_client_secret_text(content@) {
            Some((id, sec)) => r is Some && r->Some_0.0@ == id && r->Some_0.1@ == sec,
            None => r is None,
        },
{
    let s = str_to_chars(content);
    let j0 = crate::json::ws_skip(&s, 0);
    if j0 >= s.len() || s[j0] != '{' {
        return None;
    }
    let j1 = crate::json::ws_skip(&s, j0 + 1);
    if j1 >= s.len() || s[j1] == '}' {
        return None;
    }
    let (web, j) = match parse_top_fields_exec(&s, j0 + 1, None) {
        Some(x) => x,
        None => {
            return None;
        },
    };
    proof {
        lemma_parse_top_fields_bounds(s@, j0 + 1 as int, None);
    }
    let je = crate::json::ws_skip(&s, j);
    if je != s.len() {
        return None;
    }
    let p = match web {
        Some(p) => p,
        None => {
            return None;
        },
    };
    match (p.id, p.secret) {
        (Some(id), Some(sec)) => Some((chars_to_string(&id), chars_to_string(&sec))),
        _ => None,
    }
}

} // verus!
