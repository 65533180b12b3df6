//! The body the provider's token endpoint returns, and its verified parser.
//!
//! A successful response is a JSON object with a non-empty `access_token`,
//! an optional `refresh_token`, an optional `token_type` and an optional
//! integer `expires_in`; anything else is a malformed body.

use vstd::prelude::*;
use vstd::string::StrSliceExecFns;
use crate::chars::{str_to_chars, chars_to_string};
use crate::json::{ws_end, parse_string, parse_string_body, parse_int, parse_value, lit_at, is_digit};
use crate::credentials::{null_lit, parse_opt_string_v, parse_opt_int_v, chars_eq};

verus! {

/// What the token endpoint handed back, once parsed.
#[derive(Clone, PartialEq, Eq)]
pub struct TokenPayload {
    pub access_token: String,
    pub refresh_token: Option<String>,
    pub token_type: Option<String>,
    pub expires_in: Option<i64>,
}

/// The payload at the specification level.
pub struct TokenPayloadView {
    pub access_token: Seq<char>,
    pub refresh_token: Option<Seq<char>>,
    pub token_type: Option<Seq<char>>,
    pub expires_in: Option<i64>,
}

impl View for TokenPayload {
    type V = TokenPayloadView;

    open spec fn view(&self) -> TokenPayloadView {
        TokenPayloadView {
            access_token: self.access_token@,
            refresh_token: match self.refresh_token {
                Some(t) => Some(t@),
                None => None,
            },
            token_type: match self.token_type {
                Some(t) => Some(t@),
                None => None,
            },
            expires_in: self.expires_in,
        }
    }
}

pub open spec fn ei_key() -> Seq<char> {
    seq!['e', 'x', 'p', 'i', 'r', 'e', 's', '_', 'i', 'n']
}

/// Fields gathered while reading the response object.
pub struct TokenPartialV {
    pub at: Option<Seq<char>>,
    pub rt_seen: bool,
    pub rt: Option<Seq<char>>,
    pub tt_seen: bool,
    pub tt: Option<Seq<char>>,
    pub ei_seen: bool,
    pub ei: Option<i64>,
}

pub open spec fn empty_token_partial() -> TokenPartialV {
    TokenPartialV {
        at: None,
        rt_seen: false,
        rt: None,
        tt_seen: false,
        tt: None,
        ei_seen: false,
        ei: None,
    }
}

/// Parse the value of one member of the response, dispatching on the key.
pub open spec fn parse_token_value(s: Seq<char>, i: int, key: Seq<char>, p: TokenPartialV) -> Option<
    (TokenPartialV, int),
> {
    if key == crate::credentials::at_key() {
        if p.at is Some {
            None
        } else {
            let jw = ws_end(s, i);
            match parse_string(s, jw) {
                Some((t, j)) => if t.len() > 0 {
                    Some((TokenPartialV { at: Some(t), ..p }, j))
                } else {
                    None
                },
                None => None,
            }
        }
    } else if key == crate::credentials::rt_key() {
        if p.rt_seen {
            None
        } else {
            match parse_opt_string_v(s, i) {
                Some((o, j)) => Some((TokenPartialV { rt_seen: true, rt: o, ..p }, j)),
                None => None,
            }
        }
    } else if key == crate::credentials::tt_key() {
        if p.tt_seen {
            None
        } else {
            match parse_opt_string_v(s, i) {
                Some((o, j)) => Some((TokenPartialV { tt_seen: true, tt: o, ..p }, j)),
                None => None,
            }
        }
    } else if key == ei_key() {
        if p.ei_seen {
            None
        } else {
            match parse_opt_int_v(s, i) {
                Some((o, j)) => Some((TokenPartialV { ei_seen: true, ei: o, ..p }, j)),
                None => None,
            }
        }
    } else {
        match parse_value(s, i) {
            Some((_v, j)) => Some((p, j)),
            None => None,
        }
    }
}

/// One or more response members followed by `}`.
pub open spec fn parse_token_fields(s: Seq<char>, i: int, p: TokenPartialV) -> Option<
    (TokenPartialV, int),
>
    decreases s.len() - i,
{
    let j1 = ws_end(s, i);
    if !(i <= j1) {
        None
    } else {
        match parse_string(s, j1) {
            None => None,
            Some((key, j2)) => {
                let j3 = ws_end(s, j2);
                if !(j2 <= j3 && j3 < s.len() && s[j3] == ':') {
                    None
                } else {
                    let j4 = j3 + 1;
                    if !(i < j4 && j4 <= s.len()) {
                        None
                    } else {
                        match parse_token_value(s, j4, key, p) {
                            None => None,
                            Some((p2, j5)) => {
                                let j6 = ws_end(s, j5);
                                if !(j5 <= j6 && j6 < s.len()) {
                                    None
                                } else if s[j6] == '}' {
                                    Some((p2, j6 + 1))
                                } else if s[j6] == ',' {
                                    let j7 = j6 + 1;
                                    if !(i < j7 && j7 <= s.len()) {
                                        None
                                    } else {
                                        parse_token_fields(s, j7, p2)
                                    }
                                } else {
                                    None
                                }
                            },
                        }
                    }
                }
            },
        }
    }
}

/// Which texts are a well-formed token response, and what they hold.
pub open spec fn parse_token_response_text(s: Seq<char>) -> Option<TokenPayloadView> {
    let j0 = ws_end(s, 0);
    if !(0 <= j0 && j0 < s.len() && s[j0] == '{') {
        None
    } else {
        let j1 = ws_end(s, j0 + 1);
        let inner: Option<(TokenPartialV, int)> = if !(j0 + 1 <= j1 && j1 < s.len()) {
            None
        } else if s[j1] == '}' {
            Some((empty_token_partial(), j1 + 1))
        } else {
            parse_token_fields(s, j0 + 1, empty_token_partial())
        };
        match inner {
            Some((p, j)) => if ws_end(s, j) == s.len() {
                match p.at {
                    Some(t) => Some(
                        TokenPayloadView {
                            access_token: t,
                            refresh_token: p.rt,
                            token_type: p.tt,
                            expires_in: p.ei,
                        },
                    ),
                    None => None,
                }
            } else {
                None
            },
            None => None,
        }
    }
}

/// Fields gathered, executable form.
struct TokenPartial {
    at: Option<Vec<char>>,
    rt_seen: bool,
    rt: Option<Vec<char>>,
    tt_seen: bool,
    tt: Option<Vec<char>>,
    ei_seen: bool,
    ei: Option<i64>,
}

impl TokenPartial {
    spec fn v(&self) -> TokenPartialV {
        TokenPartialV {
            at: match self.at {
                Some(t) => Some(t@),
                None => None,
            },
            rt_seen: self.rt_seen,
            rt: match self.rt {
                Some(t) => Some(t@),
                None => None,
            },
            tt_seen: self.tt_seen,
            tt: match self.tt {
                Some(t) => Some(t@),
                None => None,
            },
            ei_seen: self.ei_seen,
            ei: self.ei,
        }
    }
}

fn ei_key_chars() -> (r: Vec<char>)
    ensures
        r@ == ei_key(),
{
    let v = str_to_chars("expires_in");
    proof {
        reveal_strlit("expires_in");
        assert(v@ =~= ei_key());
    }
    v
}

fn parse_token_value_exec(s: &Vec<char>, i: usize, key: &Vec<char>, p: TokenPartial) -> (r: Option<
    (TokenPartial, usize),
>)
    requires
        i <= s@.len(),
    ensures
        match parse_token_value(s@, i as int, key@, p.v()) {
            Some((q, j)) => r is Some && r->Some_0.0.v() == q && r->Some_0.1 == j as usize,
            None => r is None,
        },
{
    let mut p = p;
    if chars_eq(key, &crate::credentials::at_key_chars()) {
        if p.at.is_some() {
            return None;
        }
        let jw = crate::json::ws_skip(s, i);
        match crate::json::parse_string_exec(s, jw) {
            Some((t, j)) => {
                if t.len() > 0 {
                    p.at = Some(t);
                    Some((p, j))
                } else {
                    None
                }
            },
            None => None,
        }
    } else if chars_eq(key, &crate::credentials::rt_key_chars()) {
        if p.rt_seen {
            return None;
        }
        match crate::credentials::parse_opt_string_exec(s, i) {
            Some((o, j)) => {
                p.rt_seen = true;
                p.rt = o;
                Some((p, j))
            },
            None => None,
        }
    } else if chars_eq(key, &crate::credentials::tt_key_chars()) {
        if p.tt_seen {
            return None;
        }
        match crate::credentials::parse_opt_string_exec(s, i) {
            Some((o, j)) => {
                p.tt_seen = true;
                p.tt = o;
                Some((p, j))
            },
            None => None,
        }
    } else if chars_eq(key, &ei_key_chars()) {
        if p.ei_seen {
            return None;
        }
        match crate::credentials::parse_opt_int_exec(s, i) {
            Some((o, j)) => {
                p.ei_seen = true;
                p.ei = o;
                Some((p, j))
            },
            None => None,
        }
    } else {
        match crate::json::skip_value(s, i) {
            Some(j) => Some((p, j)),
            None => None,
        }
    }
}

proof fn lemma_parse_token_value_bounds(s: Seq<char>, i: int, key: Seq<char>)
    requires
        0 <= i <= s.len(),
    ensures
        forall|p: TokenPartialV|
            #[trigger] parse_token_value(s, i, key, p) is Some ==> i < parse_token_value(
                s,
                i,
                key,
                p,
            )->Some_0.1 <= s.len(),
{
    crate::json::lemma_ws_end_bounds(s, i);
    let jw = ws_end(s, i);
    crate::json::lemma_parse_string_bounds(s, jw);
    crate::credentials::lemma_parse_opt_string_bounds(s, i);
    crate::credentials::lemma_parse_opt_int_bounds(s, i);
    crate::json::lemma_parse_value_bounds(s, i);
}

fn parse_token_fields_exec(s: &Vec<char>, i: usize, p: TokenPartial) -> (r: Option<
    (TokenPartial, usize),
>)
    requires
        i <= s@.len(),
    ensures
        match parse_token_fields(s@, i as int, p.v()) {
            Some((q, j)) => r is Some && r->Some_0.0.v() == q && r->Some_0.1 == j as usize,
            None => r is None,
        },
    decreases s@.len() - i,
{
    let j1 = crate::json::ws_skip(s, i);
    let (key, j2) = match crate::json::parse_string_exec(s, j1) {
        Some(kj) => kj,
        None => {
            return None;
        },
    };
    proof {
        crate::json::lemma_parse_string_bounds(s@, j1 as int);
    }
    let j3 = crate::json::ws_skip(s, j2);
    if j3 >= s.len() || s[j3] != ':' {
        return None;
    }
    let j4 = j3 + 1;
    let (p2, j5) = match parse_token_value_exec(s, j4, &key, p) {
        Some(x) => x,
        None => {
            return None;
        },
    };
    proof {
        lemma_parse_token_value_bounds(s@, j4 as int, key@);
    }
    let j6 = crate::json::ws_skip(s, j5);
    if j6 >= s.len() {
        return None;
    }
    if s[j6] == '}' {
        Some((p2, j6 + 1))
    } else if s[j6] == ',' {
        let j7 = j6 + 1;
        parse_token_fields_exec(s, j7, p2)
    } else {
        None
    }
}

proof fn lemma_parse_token_fields_bounds(s: Seq<char>, i: int, p: TokenPartialV)
    requires
        0 <= i <= s.len(),
    ensures
        parse_token_fields(s, i, p) is Some ==> i < parse_token_fields(s, i, p)->Some_0.1
            <= s.len(),
    decreases s.len() - i,
{
    crate::json::lemma_ws_end_bounds(s, i);
    let j1 = ws_end(s, i);
    if i <= j1 && parse_string(s, j1) is Some {
        let (key, j2) = parse_string(s, j1)->Some_0;
        crate::json::lemma_parse_string_bounds(s, j1);
        crate::json::lemma_ws_end_bounds(s, j2);
        let j3 = ws_end(s, j2);
        if j2 <= j3 && j3 < s.len() && s[j3] == ':' {
            let j4 = j3 + 1;
            if i < j4 && j4 <= s.len() {
                lemma_parse_token_value_bounds(s, j4, key);
                if parse_token_value(s, j4, key, p) is Some {
                    let (p2, j5) = parse_token_value(s, j4, key, p)->Some_0;
                    crate::json::lemma_ws_end_bounds(s, j5);
                    let j6 = ws_end(s, j5);
                    if j5 <= j6 && j6 < s.len() && s[j6] == ',' {
                        let j7 = j6 + 1;
                        if i < j7 && j7 <= s.len() {
                            lemma_parse_token_fields_bounds(s, j7, p2);
                        }
                    }
                }
            }
        }
    }
}

/// Parse a token endpoint response body; `None` means a malformed body.
pub fn parse_token_response(body: &str) -> (r: Option<TokenPayload>)
    ensures
        match parse_token_response_text(body@) {
            Some(tv) => r is Some && r->Some_0@ == tv,
            None => r is None,
        },
{
    let s = str_to_chars(body);
    let j0 = crate::json::ws_skip(&s, 0);
    if j0 >= s.len() || s[j0] != '{' {
        return None;
    }
    let j1 = crate::json::ws_skip(&s, j0 + 1);
    let empty = TokenPartial {
        at: None,
        rt_seen: false,
        rt: None,
        tt_seen: false,
        tt: None,
        ei_seen: false,
        ei: None,
    };
    proof {
        assert(empty.v() == empty_token_partial());
    }
    let (p, j) = if j1 >= s.len() {
        return None;
    } else if s[j1] == '}' {
        (empty, j1 + 1)
    } else {
        match parse_token_fields_exec(&s, j0 + 1, empty) {
            Some(x) => x,
            None => {
                return None;
            },
        }
    };
    proof {
        lemma_parse_token_fields_bounds(s@, j0 + 1 as int, empty_token_partial());
    }
    let je = crate::json::ws_skip(&s, j);
    if je != s.len() {
        return None;
    }
    let at = match p.at {
        Some(t) => t,
        None => {
            return None;
        },
    };
    Some(
        TokenPayload {
            access_token: chars_to_string(&at),
            refresh_token: match p.rt {
                Some(t) => Some(chars_to_string(&t)),
                None => None,
            },
            token_type: match p.tt {
                Some(t) => Some(chars_to_string(&t)),
                None => None,
            },
            expires_in: p.ei,
        },
    )
}

} // verus!
