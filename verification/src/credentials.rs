//! The persisted credential record and its JSON codec.
//!
//! A record is either entirely absent (no file) or a JSON object with a
//! non-empty `access_token`; anything else is a corrupt store. The codec
//! here defines exactly which texts are a valid record, and the renderer
//! writes the canonical form; parsing what was rendered gives back an equal
//! record (proved in [`crate::credentials_laws`]).

use vstd::prelude::*;
use vstd::string::StringExecFns;
use crate::chars::{str_to_chars, chars_to_string};
use crate::json::{
    ws_end, parse_string, parse_string_body, parse_int, parse_value, lit_at, is_digit,
    render_string, render_int,
};

verus! {

/// Profile data merged into the record by best-effort enrichment.
#[derive(Clone, PartialEq, Eq)]
pub struct UserInfo {
    pub email: String,
}

/// The persisted token state.
#[derive(Clone, PartialEq, Eq)]
pub struct Credentials {
    pub access_token: String,
    pub refresh_token: Option<String>,
    pub token_type: Option<String>,
    pub expiry_date: Option<i64>,
    pub user_info: Option<UserInfo>,
}

/// The record at the specification level.
pub struct CredView {
    pub access_token: Seq<char>,
    pub refresh_token: Option<Seq<char>>,
    pub token_type: Option<Seq<char>>,
    pub expiry_date: Option<i64>,
    pub email: Option<Seq<char>>,
}

impl CredView {
    /// A record is well formed when its access token is not empty.
    pub open spec fn wf(self) -> bool {
        self.access_token.len() > 0
    }
}

impl View for Credentials {
    type V = CredView;

    open spec fn view(&self) -> CredView {
        CredView {
            access_token: self.access_token@,
            refresh_token: match self.refresh_token {
                Some(t) => Some(t@),
                None => None,
            },
            token_type: match self.token_type {
                Some(t) => Some(t@),
                None => None,
            },
            expiry_date: self.expiry_date,
            email: match self.user_info {
                Some(u) => Some(u.email@),
                None => None,
            },
        }
    }
}

// ---------------------------------------------------------------------------
// The field names of the record, as character sequences.
// ---------------------------------------------------------------------------
pub open spec fn at_key() -> Seq<char> {
    seq!['a', 'c', 'c', 'e', 's', 's', '_', 't', 'o', 'k', 'e', 'n']
}

pub open spec fn rt_key() -> Seq<char> {
    seq!['r', 'e', 'f', 'r', 'e', 's', 'h', '_', 't', 'o', 'k', 'e', 'n']
}

pub open spec fn tt_key() -> Seq<char> {
    seq!['t', 'o', 'k', 'e', 'n', '_', 't', 'y', 'p', 'e']
}

pub open spec fn ed_key() -> Seq<char> {
    seq!['e', 'x', 'p', 'i', 'r', 'y', '_', 'd', 'a', 't', 'e']
}

pub open spec fn ui_key() -> Seq<char> {
    seq!['u', 's', 'e', 'r', '_', 'i', 'n', 'f', 'o']
}

pub open spec fn email_key() -> Seq<char> {
    seq!['e', 'm', 'a', 'i', 'l']
}

pub open spec fn null_lit() -> Seq<char> {
    seq!['n', 'u', 'l', 'l']
}

// ---------------------------------------------------------------------------
// Specification-level parser of a record: a JSON object whose known fields
// have the required types, whose unknown fields are skipped, and in which no
// known field repeats.
// ---------------------------------------------------------------------------
/// Fields gathered so far while reading the object.
pub struct CredPartialV {
    pub at: Option<Seq<char>>,
    pub rt_seen: bool,
    pub rt: Option<Seq<char>>,
    pub tt_seen: bool,
    pub tt: Option<Seq<char>>,
    pub ed_seen: bool,
    pub ed: Option<i64>,
    pub ui_seen: bool,
    pub ui: Option<Seq<char>>,
}

pub open spec fn empty_partial() -> CredPartialV {
    CredPartialV {
        at: None,
        rt_seen: false,
        rt: None,
        tt_seen: false,
        tt: None,
        ed_seen: false,
        ed: None,
        ui_seen: false,
        ui: None,
    }
}

/// A string or `null`, after whitespace.
pub open spec fn parse_opt_string_v(s: Seq<char>, i: int) -> Option<(Option<Seq<char>>, int)> {
    let j = ws_end(s, i);
    if !(i <= j && j < s.len()) {
        None
    } else if s[j] == '"' {
        match parse_string_body(s, j + 1) {
            Some((t, k)) => Some((Some(t), k)),
            None => None,
        }
    } else if s[j] == 'n' && lit_at(s, j, null_lit()) {
        Some((None, j + 4))
    } else {
        None
    }
}

/// An integer or `null`, after whitespace.
pub open spec fn parse_opt_int_v(s: Seq<char>, i: int) -> Option<(Option<i64>, int)> {
    let j = ws_end(s, i);
    if !(i <= j && j < s.len()) {
        None
    } else if s[j] == 'n' && lit_at(s, j, null_lit()) {
        Some((None, j + 4))
    } else if s[j] == '-' || is_digit(s[j]) {
        match parse_int(s, j) {
            Some((v, k)) => Some((Some(v), k)),
            None => None,
        }
    } else {
        None
    }
}

/// The members of a `user_info` object, after its `{`; `email` must appear
/// exactly once and be a string, other fields are skipped.
pub open spec fn parse_ui_obj(s: Seq<char>, i: int, email: Option<Seq<char>>) -> Option<
    (Seq<char>, int),
>
    decreases s.len() - i, 1int,
{
    let j = ws_end(s, i);
    if !(i <= j && j < s.len()) {
        None
    } else if s[j] == '}' {
        match email {
            Some(e) => Some((e, j + 1)),
            None => None,
        }
    } else {
        parse_ui_fields(s, i, email)
    }
}

/// One or more `user_info` members followed by `}`.
pub open spec fn parse_ui_fields(s: Seq<char>, i: int, email: Option<Seq<char>>) -> Option<
    (Seq<char>, int),
>
    decreases s.len() - i, 0int,
{
    let j1 = ws_end(s, i);
    if !(i <= j1) {
        None
    } else {
        match parse_string(s, j1) {
            None => None,
            Some((key, j2)) => {
                let j3 = ws_end(s, j2);
                if !(j2 <= j3 && j3 < s.len() && s[j3] == ':') {
                    None
                } else {
                    let j4 = j3 + 1;
                    if !(i < j4 && j4 <= s.len()) {
                        None
                    } else {
                        let parsed: Option<(Option<Seq<char>>, int)> = if key == email_key() {
                            if email is Some {
                                None
                            } else {
                                let jw = ws_end(s, j4);
                                match parse_string(s, jw) {
                                    Some((e, j5)) => Some((Some(e), j5)),
                                    None => None,
                                }
                            }
                        } else {
                            match parse_value(s, j4) {
                                Some((_v, j5)) => Some((email, j5)),
                                None => None,
                            }
                        };
                        match parsed {
                            None => None,
                            Some((email2, j5)) => {
                                let j6 = ws_end(s, j5);
                                if !(j5 <= j6 && j6 < s.len()) {
                                    None
                                } else if s[j6] == '}' {
                                    match email2 {
                                        Some(e) => Some((e, j6 + 1)),
                                        None => None,
                                    }
                                } else if s[j6] == ',' {
                                    let j7 = j6 + 1;
                                    if !(i < j7 && j7 <= s.len()) {
                                        None
                                    } else {
                                        parse_ui_fields(s, j7, email2)
                                    }
                                } else {
                                    None
                                }
                            },
                        }
                    }
                }
            },
        }
    }
}

/// A `user_info` value: `null` or an object with an `email` string.
pub open spec fn parse_ui_value(s: Seq<char>, i: int) -> Option<(Option<Seq<char>>, int)> {
    let j = ws_end(s, i);
    if !(i <= j && j < s.len()) {
        None
    } else if s[j] == 'n' && lit_at(s, j, null_lit()) {
        Some((None, j + 4))
    } else if s[j] == '{' {
        match parse_ui_obj(s, j + 1, None) {
            Some((e, k)) => Some((Some(e), k)),
            None => None,
        }
    } else {
        None
    }
}

/// Parse the value of one member, dispatching on the key. A known key that
/// repeats, or whose value has the wrong type, makes the record invalid;
/// the value of an unknown key is skipped.
pub open spec fn parse_cred_value(s: Seq<char>, i: int, key: Seq<char>, p: CredPartialV) -> Option<
    (CredPartialV, int),
> {
    if key == at_key() {
        if p.at is Some {
            None
        } else {
            let jw = ws_end(s, i);
            match parse_string(s, jw) {
                Some((t, j)) => if t.len() > 0 {
                    Some((CredPartialV { at: Some(t), ..p }, j))
                } else {
                    None
                },
                None => None,
            }
        }
    } else if key == rt_key() {
        if p.rt_seen {
            None
        } else {
            match parse_opt_string_v(s, i) {
                Some((o, j)) => Some((CredPartialV { rt_seen: true, rt: o, ..p }, j)),
                None => None,
            }
        }
    } else if key == tt_key() {
        if p.tt_seen {
            None
        } else {
            match parse_opt_string_v(s, i) {
                Some((o, j)) => Some((CredPartialV { tt_seen: true, tt: o, ..p }, j)),
                None => None,
            }
        }
    } else if key == ed_key() {
        if p.ed_seen {
            None
        } else {
            match parse_opt_int_v(s, i) {
                Some((o, j)) => Some((CredPartialV { ed_seen: true, ed: o, ..p }, j)),
                None => None,
            }
        }
    } else if key == ui_key() {
        if p.ui_seen {
            None
        } else {
            match parse_ui_value(s, i) {
                Some((o, j)) => Some((CredPartialV { ui_seen: true, ui: o, ..p }, j)),
                None => None,
            }
        }
    } else {
        match parse_value(s, i) {
            Some((_v, j)) => Some((p, j)),
            None => None,
        }
    }
}

/// One or more record members followed by `}`.
pub open spec fn parse_cred_fields(s: Seq<char>, i: int, p: CredPartialV) -> Option<
    (CredPartialV, int),
>
    decreases s.len() - i,
{
    let j1 = ws_end(s, i);
    if !(i <= j1) {
        None
    } else {
        match parse_string(s, j1) {
            None => None,
            Some((key, j2)) => {
                let j3 = ws_end(s, j2);
                if !(j2 <= j3 && j3 < s.len() && s[j3] == ':') {
                    None
                } else {
                    let j4 = j3 + 1;
                    if !(i < j4 && j4 <= s.len()) {
                        None
                    } else {
                        match parse_cred_value(s, j4, key, p) {
                            None => None,
                            Some((p2, j5)) => {
                                let j6 = ws_end(s, j5);
                                if !(j5 <= j6 && j6 < s.len()) {
                                    None
                                } else if s[j6] == '}' {
                                    Some((p2, j6 + 1))
                                } else if s[j6] == ',' {
                                    let j7 = j6 + 1;
                                    if !(i < j7 && j7 <= s.len()) {
                                        None
                                    } else {
                                        parse_cred_fields(s, j7, p2)
                                    }
                                } else {
                                    None
                                }
                            },
                        }
                    }
                }
            },
        }
    }
}

/// The record the gathered fields make, if the required one is present.
pub open spec fn finish_cred(p: CredPartialV) -> Option<CredView> {
    match p.at {
        Some(t) => Some(
            CredView {
                access_token: t,
                refresh_token: p.rt,
                token_type: p.tt,
                expiry_date: p.ed,
                email: p.ui,
            },
        ),
        None => None,
    }
}

/// Which texts are a valid credential record, and what record they hold.
pub open spec fn parse_credentials_text(s: Seq<char>) -> Option<CredView> {
    let j0 = ws_end(s, 0);
    if !(0 <= j0 && j0 < s.len() && s[j0] == '{') {
        None
    } else {
        let j1 = ws_end(s, j0 + 1);
        let inner: Option<(CredPartialV, int)> = if !(j0 + 1 <= j1 && j1 < s.len()) {
            None
        } else if s[j1] == '}' {
            Some((empty_partial(), j1 + 1))
        } else {
            parse_cred_fields(s, j0 + 1, empty_partial())
        };
        match inner {
            Some((p, j)) => if ws_end(s, j) == s.len() {
                finish_cred(p)
            } else {
                None
            },
            None => None,
        }
    }
}

// ---------------------------------------------------------------------------
// Specification-level renderer: the canonical written form of a record.
// ---------------------------------------------------------------------------
pub open spec fn render_opt_string(o: Option<Seq<char>>) -> Seq<char> {
    match o {
        Some(t) => render_string(t),
        None => null_lit(),
    }
}

pub open spec fn render_opt_int(o: Option<i64>) -> Seq<char> {
    match o {
        Some(v) => render_int(v as int),
        None => null_lit(),
    }
}

pub open spec fn render_user_info(o: Option<Seq<char>>) -> Seq<char> {
    match o {
        Some(e) => seq!['{'] + render_string(email_key()) + seq![':'] + render_string(e)
            + seq!['}'],
        None => null_lit(),
    }
}

/// One `"key":value` member.
pub open spec fn render_member(key: Seq<char>, val: Seq<char>) -> Seq<char> {
    render_string(key) + seq![':'] + val
}

/// The canonical text of a record: every field written, absent ones as `null`.
pub open spec fn spec_render_credentials(c: CredView) -> Seq<char> {
    seq!['{'] + render_member(at_key(), render_string(c.access_token)) + seq![','] + render_member(
        rt_key(),
        render_opt_string(c.refresh_token),
    ) + seq![','] + render_member(tt_key(), render_opt_string(c.token_type)) + seq![',']
        + render_member(ed_key(), render_opt_int(c.expiry_date)) + seq![','] + render_member(
        ui_key(),
        render_user_info(c.email),
    ) + seq!['}']
}

// ---------------------------------------------------------------------------
// Executable parser
// ---------------------------------------------------------------------------
/// Equality of two character vectors.
pub fn chars_eq(a: &Vec<char>, b: &Vec<char>) -> (r: bool)
    ensures
        r == (a@ == b@),
{
    if a.len() != b.len() {
        proof {
            assert(a@ != b@);
        }
        return false;
    }
    let mut k: usize = 0;
    while k < a.len()
        invariant
            k <= a@.len(),
            a@.len() == b@.len(),
            forall|m: int| 0 <= m < k ==> a@[m] == b@[m],
        decreases a@.len() - k,
    {
        if a[k] != b[k] {
            return false;
        }
        k = k + 1;
    }
    proof {
        assert(a@ =~= b@);
    }
    true
}

pub fn at_key_chars() -> (r: Vec<char>)
    ensures
        r@ == at_key(),
{
    let v = str_to_chars("access_token");
    proof {
        reveal_strlit("access_token");
        assert(v@ =~= at_key());
    }
    v
}

pub fn rt_key_chars() -> (r: Vec<char>)
    ensures
        r@ == rt_key(),
{
    let v = str_to_chars("refresh_token");
    proof {
        reveal_strlit("refresh_token");
        assert(v@ =~= rt_key());
    }
    v
}

pub fn tt_key_chars() -> (r: Vec<char>)
    ensures
        r@ == tt_key(),
{
    let v = str_to_chars("token_type");
    proof {
        reveal_strlit("token_type");
        assert(v@ =~= tt_key());
    }
    v
}

pub fn ed_key_chars() -> (r: Vec<char>)
    ensures
        r@ == ed_key(),
{
    let v = str_to_chars("expiry_date");
    proof {
        reveal_strlit("expiry_date");
        assert(v@ =~= ed_key());
    }
    v
}

pub fn ui_key_chars() -> (r: Vec<char>)
    ensures
        r@ == ui_key(),
{
    let v = str_to_chars("user_info");
    proof {
        reveal_strlit("user_info");
        assert(v@ =~= ui_key());
    }
    v
}

pub fn email_key_chars() -> (r: Vec<char>)
    ensures
        r@ == email_key(),
{
    let v = str_to_chars("email");
    proof {
        reveal_strlit("email");
        assert(v@ =~= email_key());
    }
    v
}

pub fn null_chars() -> (r: Vec<char>)
    ensures
        r@ == null_lit(),
{
    let v = str_to_chars("null");
    proof {
        reveal_strlit("null");
        assert(v@ =~= null_lit());
    }
    v
}

/// Fields gathered so far, executable form.
struct CredPartial {
    at: Option<Vec<char>>,
    rt_seen: bool,
    rt: Option<Vec<char>>,
    tt_seen: bool,
    tt: Option<Vec<char>>,
    ed_seen: bool,
    ed: Option<i64>,
    ui_seen: bool,
    ui: Option<Vec<char>>,
}

impl CredPartial {
    spec fn v(&self) -> CredPartialV {
        CredPartialV {
            at: match self.at {
                Some(t) => Some(t@),
                None => None,
            },
            rt_seen: self.rt_seen,
            rt: match self.rt {
                Some(t) => Some(t@),
                None => None,
            },
            tt_seen: self.tt_seen,
            tt: match self.tt {
                Some(t) => Some(t@),
                None => None,
            },
            ed_seen: self.ed_seen,
            ed: self.ed,
            ui_seen: self.ui_seen,
            ui: match self.ui {
                Some(t) => Some(t@),
                None => None,
            },
        }
    }
}

pub fn parse_opt_string_exec(s: &Vec<char>, i: usize) -> (r: Option<(Option<Vec<char>>, usize)>)
    requires
        i <= s@.len(),
    ensures
        match parse_opt_string_v(s@, i as int) {
            Some((o, j)) => {
                &&& r is Some
                &&& r->Some_0.1 == j as usize
                &&& match r->Some_0.0 {
                    Some(t) => o == Some(t@),
                    None => o is None,
                }
            },
            None => r is None,
        },
{
    let j = crate::json::ws_skip(s, i);
    if j >= s.len() {
        return None;
    }
    if s[j] == '"' {
        match crate::json::parse_string_exec(s, j) {
            Some((t, k)) => Some((Some(t), k)),
            None => None,
        }
    } else if s[j] == 'n' {
        let w = null_chars();
        if crate::json::lit_check(s, j, &w) {
            Some((None, j + 4))
        } else {
            None
        }
    } else {
        None
    }
}

pub fn parse_opt_int_exec(s: &Vec<char>, i: usize) -> (r: Option<(Option<i64>, usize)>)
    requires
        i <= s@.len(),
    ensures
        match parse_opt_int_v(s@, i as int) {
            Some((o, j)) => r == Some((o, j as usize)),
            None => r is None,
        },
{
    let j = crate::json::ws_skip(s, i);
    if j >= s.len() {
        return None;
    }
    if s[j] == 'n' {
        let w = null_chars();
        if crate::json::lit_check(s, j, &w) {
            Some((None, j + 4))
        } else {
            None
        }
    } else if s[j] == '-' || crate::json::is_digit_exec(s[j]) {
        match crate::json::parse_int_exec(s, j) {
            Some((v, k)) => Some((Some(v), k)),
            None => None,
        }
    } else {
        None
    }
}

fn parse_ui_fields_exec(s: &Vec<char>, i: usize, email: Option<Vec<char>>) -> (r: Option<
    (Vec<char>, usize),
>)
    requires
        i <= s@.len(),
    ensures
        match parse_ui_fields(
            s@,
            i as int,
            match email {
                Some(e) => Some(e@),
                None => None,
            },
        ) {
            Some((e, j)) => r is Some && r->Some_0.0@ == e && r->Some_0.1 == j as usize,
            None => r is None,
        },
    decreases s@.len() - i,
{
    let j1 = crate::json::ws_skip(s, i);
    let (key, j2) = match crate::json::parse_string_exec(s, j1) {
        Some(kj) => kj,
        None => {
            return None;
        },
    };
    proof {
        crate::json::lemma_parse_string_bounds(s@, j1 as int);
    }
    let j3 = crate::json::ws_skip(s, j2);
    if j3 >= s.len() || s[j3] != ':' {
        return None;
    }
    let j4 = j3 + 1;
    let ek = email_key_chars();
    let step: Option<(Option<Vec<char>>, usize)> = if chars_eq(&key, &ek) {
        if email.is_some() {
            return None;
        } else {
            let jw = crate::json::ws_skip(s, j4);
            match crate::json::parse_string_exec(s, jw) {
                Some((e, j5)) => Some((Some(e), j5)),
                None => None,
            }
        }
    } else {
        match crate::json::skip_value(s, j4) {
            Some(j5) => Some((email, j5)),
            None => None,
        }
    };
    let (email2, j5) = match step {
        Some(x) => x,
        None => {
            return None;
        },
    };
    proof {
        crate::json::lemma_parse_string_bounds(s@, crate::json::ws_end(s@, j4 as int));
    }
    let j6 = crate::json::ws_skip(s, j5);
    if j6 >= s.len() {
        return None;
    }
    if s[j6] == '}' {
        match email2 {
            Some(e) => Some((e, j6 + 1)),
            None => None,
        }
    } else if s[j6] == ',' {
        let j7 = j6 + 1;
        parse_ui_fields_exec(s, j7, email2)
    } else {
        None
    }
}

fn parse_ui_value_exec(s: &Vec<char>, i: usize) -> (r: Option<(Option<Vec<char>>, usize)>)
    requires
        i <= s@.len(),
    ensures
        match parse_ui_value(s@, i as int) {
            Some((o, j)) => {
                &&& r is Some
                &&& r->Some_0.1 == j as usize
                &&& match r->Some_0.0 {
                    Some(t) => o == Some(t@),
                    None => o is None,
                }
            },
            None => r is None,
        },
{
    let j = crate::json::ws_skip(s, i);
    if j >= s.len() {
        return None;
    }
    if s[j] == 'n' {
        let w = null_chars();
        if crate::json::lit_check(s, j, &w) {
            Some((None, j + 4))
        } else {
            None
        }
    } else if s[j] == '{' {
        // An object: `}` closes it at once, or members follow.
        let jj = crate::json::ws_skip(s, j + 1);
        if jj >= s.len() {
            return None;
        }
        if s[jj] == '}' {
            // `email` is required.
            None
        } else {
            match parse_ui_fields_exec(s, j + 1, None) {
                Some((e, k)) => Some((Some(e), k)),
                None => None,
            }
        }
    } else {
        None
    }
}

fn parse_cred_value_exec(s: &Vec<char>, i: usize, key: &Vec<char>, p: CredPartial) -> (r: Option<
    (CredPartial, usize),
>)
    requires
        i <= s@.len(),
    ensures
        match parse_cred_value(s@, i as int, key@, p.v()) {
            Some((q, j)) => r is Some && r->Some_0.0.v() == q && r->Some_0.1 == j as usize,
            None => r is None,
        },
{
    let mut p = p;
    if chars_eq(key, &at_key_chars()) {
        if p.at.is_some() {
            return None;
        }
        let jw = crate::json::ws_skip(s, i);
        match crate::json::parse_string_exec(s, jw) {
            Some((t, j)) => {
                if t.len() > 0 {
                    p.at = Some(t);
                    Some((p, j))
                } else {
                    None
                }
            },
            None => None,
        }
    } else if chars_eq(key, &rt_key_chars()) {
        if p.rt_seen {
            return None;
        }
        match parse_opt_string_exec(s, i) {
            Some((o, j)) => {
                p.rt_seen = true;
                p.rt = o;
                Some((p, j))
            },
            None => None,
        }
    } else if chars_eq(key, &tt_key_chars()) {
        if p.tt_seen {
            return None;
        }
        match parse_opt_string_exec(s, i) {
            Some((o, j)) => {
                p.tt_seen = true;
                p.tt = o;
                Some((p, j))
            },
            None => None,
        }
    } else if chars_eq(key, &ed_key_chars()) {
        if p.ed_seen {
            return None;
        }
        match parse_opt_int_exec(s, i) {
            Some((o, j)) => {
                p.ed_seen = true;
                p.ed = o;
                Some((p, j))
            },
            None => None,
        }
    } else if chars_eq(key, &ui_key_chars()) {
        if p.ui_seen {
            return None;
        }
        match parse_ui_value_exec(s, i) {
            Some((o, j)) => {
                p.ui_seen = true;
                p.ui = o;
                Some((p, j))
            },
            None => None,
        }
    } else {
        match crate::json::skip_value(s, i) {
            Some(j) => Some((p, j)),
            None => None,
        }
    }
}

fn parse_cred_fields_exec(s: &Vec<char>, i: usize, p: CredPartial) -> (r: Option<
    (CredPartial, usize),
>)
    requires
        i <= s@.len(),
    ensures
        match parse_cred_fields(s@, i as int, p.v()) {
            Some((q, j)) => r is Some && r->Some_0.0.v() == q && r->Some_0.1 == j as usize,
            None => r is None,
        },
    decreases s@.len() - i,
{
    let j1 = crate::json::ws_skip(s, i);
    let (key, j2) = match crate::json::parse_string_exec(s, j1) {
        Some(kj) => kj,
        None => {
            return None;
        },
    };
    proof {
        crate::json::lemma_parse_string_bounds(s@, j1 as int);
    }
    let j3 = crate::json::ws_skip(s, j2);
    if j3 >= s.len() || s[j3] != ':' {
        return None;
    }
    let j4 = j3 + 1;
    let (p2, j5) = match parse_cred_value_exec(s, j4, &key, p) {
        Some(x) => x,
        None => {
            return None;
        },
    };
    proof {
        lemma_parse_cred_value_bounds(s@, j4 as int, key@);
    }
    let j6 = crate::json::ws_skip(s, j5);
    if j6 >= s.len() {
        return None;
    }
    if s[j6] == '}' {
        Some((p2, j6 + 1))
    } else if s[j6] == ',' {
        let j7 = j6 + 1;
        parse_cred_fields_exec(s, j7, p2)
    } else {
        None
    }
}

// Bounds for the typed value parsers, needed to keep indices in range.
pub proof fn lemma_parse_opt_string_bounds(s: Seq<char>, i: int)
    requires
        0 <= i <= s.len(),
    ensures
        parse_opt_string_v(s, i) is Some ==> i < parse_opt_string_v(s, i)->Some_0.1 <= s.len(),
{
    crate::json::lemma_ws_end_bounds(s, i);
    let j = crate::json::ws_end(s, i);
    if i <= j && j < s.len() && s[j] == '"' {
        crate::json::lemma_parse_string_body_bounds(s, j + 1);
    }
}

pub proof fn lemma_parse_opt_int_bounds(s: Seq<char>, i: int)
    requires
        0 <= i <= s.len(),
    ensures
        parse_opt_int_v(s, i) is Some ==> i < parse_opt_int_v(s, i)->Some_0.1 <= s.len(),
{
    crate::json::lemma_ws_end_bounds(s, i);
    let j = crate::json::ws_end(s, i);
    if i <= j && j < s.len() {
        crate::json::lemma_parse_int_bounds(s, j);
    }
}

proof fn lemma_parse_ui_fields_bounds(s: Seq<char>, i: int, email: Option<Seq<char>>)
    requires
        0 <= i <= s.len(),
    ensures
        parse_ui_fields(s, i, email) is Some ==> i < parse_ui_fields(s, i, email)->Some_0.1
            <= s.len(),
    decreases s.len() - i,
{
    crate::json::lemma_ws_end_bounds(s, i);
    let j1 = crate::json::ws_end(s, i);
    if i <= j1 && parse_string(s, j1) is Some {
        let (key, j2) = parse_string(s, j1)->Some_0;
        crate::json::lemma_parse_string_bounds(s, j1);
        crate::json::lemma_ws_end_bounds(s, j2);
        let j3 = crate::json::ws_end(s, j2);
        if j2 <= j3 && j3 < s.len() && s[j3] == ':' {
            let j4 = j3 + 1;
            if i < j4 && j4 <= s.len() {
                crate::json::lemma_ws_end_bounds(s, j4);
                let jw = crate::json::ws_end(s, j4);
                crate::json::lemma_parse_string_bounds(s, jw);
                crate::json::lemma_parse_value_bounds(s, j4);
                let parsed: Option<(Option<Seq<char>>, int)> = if key == email_key() {
                    if email is Some {
                        None
                    } else {
                        match parse_string(s, jw) {
                            Some((e, j5)) => Some((Some(e), j5)),
                            None => None,
                        }
                    }
                } else {
                    match parse_value(s, j4) {
                        Some((_v, j5)) => Some((email, j5)),
                        None => None,
                    }
                };
                if parsed is Some {
                    let (email2, j5) = parsed->Some_0;
                    crate::json::lemma_ws_end_bounds(s, j5);
                    let j6 = crate::json::ws_end(s, j5);
                    if j5 <= j6 && j6 < s.len() && s[j6] == ',' {
                        let j7 = j6 + 1;
                        if i < j7 && j7 <= s.len() {
                            lemma_parse_ui_fields_bounds(s, j7, email2);
                        }
                    }
                }
            }
        }
    }
}

proof fn lemma_parse_ui_value_bounds(s: Seq<char>, i: int)
    requires
        0 <= i <= s.len(),
    ensures
        parse_ui_value(s, i) is Some ==> i < parse_ui_value(s, i)->Some_0.1 <= s.len(),
{
    crate::json::lemma_ws_end_bounds(s, i);
    let j = crate::json::ws_end(s, i);
    if i <= j && j < s.len() && s[j] == '{' {
        crate::json::lemma_ws_end_bounds(s, j + 1);
        lemma_parse_ui_fields_bounds(s, j + 1, None);
    }
}

proof fn lemma_parse_cred_value_bounds(s: Seq<char>, i: int, key: Seq<char>)
    requires
        0 <= i <= s.len(),
    ensures
        forall|p: CredPartialV|
            #[trigger] parse_cred_value(s, i, key, p) is Some ==> i < parse_cred_value(
                s,
                i,
                key,
                p,
            )->Some_0.1 <= s.len(),
{
    crate::json::lemma_ws_end_bounds(s, i);
    let jw = crate::json::ws_end(s, i);
    crate::json::lemma_parse_string_bounds(s, jw);
    lemma_parse_opt_string_bounds(s, i);
    lemma_parse_opt_int_bounds(s, i);
    lemma_parse_ui_value_bounds(s, i);
    crate::json::lemma_parse_value_bounds(s, i);
}

/// Parse a whole text as a credential record.
pub fn parse_credentials_chars(s: &Vec<char>) -> (r: Option<Credentials>)
    ensures
        match parse_credentials_text(s@) {
            Some(cv) => r is Some && r->Some_0@ == cv,
            None => r is None,
        },
{
    let j0 = crate::json::ws_skip(s, 0);
    if j0 >= s.len() || s[j0] != '{' {
        return None;
    }
    let j1 = crate::json::ws_skip(s, j0 + 1);
    let empty = CredPartial {
        at: None,
        rt_seen: false,
        rt: None,
        tt_seen: false,
        tt: None,
        ed_seen: false,
        ed: None,
        ui_seen: false,
        ui: None,
    };
    proof {
        assert(empty.v() == empty_partial());
    }
    let (p, j) = if j1 >= s.len() {
        return None;
    } else if s[j1] == '}' {
        (empty, j1 + 1)
    } else {
        match parse_cred_fields_exec(s, j0 + 1, empty) {
            Some(x) => x,
            None => {
                return None;
            },
        }
    };
    proof {
        lemma_parse_cred_fields_bounds(s@, j0 + 1 as int, empty_partial());
    }
    let je = crate::json::ws_skip(s, j);
    if je != s.len() {
        return None;
    }
    let at = match p.at {
        Some(t) => t,
        None => {
            return None;
        },
    };
    let user_info = match p.ui {
        Some(e) => Some(UserInfo { email: chars_to_string(&e) }),
        None => None,
    };
    let c = Credentials {
        access_token: chars_to_string(&at),
        refresh_token: match p.rt {
            Some(t) => Some(chars_to_string(&t)),
            None => None,
        },
        token_type: match p.tt {
            Some(t) => Some(chars_to_string(&t)),
            None => None,
        },
        expiry_date: p.ed,
        user_info,
    };
    Some(c)
}

proof fn lemma_parse_cred_fields_bounds(s: Seq<char>, i: int, p: CredPartialV)
    requires
        0 <= i <= s.len(),
    ensures
        parse_cred_fields(s, i, p) is Some ==> i < parse_cred_fields(s, i, p)->Some_0.1 <= s.len(),
    decreases s.len() - i,
{
    crate::json::lemma_ws_end_bounds(s, i);
    let j1 = crate::json::ws_end(s, i);
    if i <= j1 && parse_string(s, j1) is Some {
        let (key, j2) = parse_string(s, j1)->Some_0;
        crate::json::lemma_parse_string_bounds(s, j1);
        crate::json::lemma_ws_end_bounds(s, j2);
        let j3 = crate::json::ws_end(s, j2);
        if j2 <= j3 && j3 < s.len() && s[j3] == ':' {
            let j4 = j3 + 1;
            if i < j4 && j4 <= s.len() {
                lemma_parse_cred_value_bounds(s, j4, key);
                if parse_cred_value(s, j4, key, p) is Some {
                    let (p2, j5) = parse_cred_value(s, j4, key, p)->Some_0;
                    crate::json::lemma_ws_end_bounds(s, j5);
                    let j6 = crate::json::ws_end(s, j5);
                    if j5 <= j6 && j6 < s.len() && s[j6] == ',' {
                        let j7 = j6 + 1;
                        if i < j7 && j7 <= s.len() {
                            lemma_parse_cred_fields_bounds(s, j7, p2);
                        }
                    }
                }
            }
        }
    }
}

/// What a userinfo response body means: an object whose `email` is a
/// string (or `null` for no profile), with nothing but whitespace around it.
pub open spec fn parse_user_info_text(s: Seq<char>) -> Option<Seq<char>> {
    match parse_ui_value(s, 0) {
        Some((o, j)) => if ws_end(s, j) == s.len() {
            o
        } else {
            None
        },
        None => None,
    }
}

/// Parse a userinfo response body into its email, if it carries one.
pub fn parse_user_info_email(body: &str) -> (r: Option<String>)
    ensures
        match parse_user_info_text(body@) {
            Some(e) => r is Some && r->Some_0@ == e,
            None => r is None,
        },
{
    let s = str_to_chars(body);
    let (o, j) = match parse_ui_value_exec(&s, 0) {
        Some(x) => x,
        None => {
            return None;
        },
    };
    proof {
        lemma_parse_ui_value_bounds(s@, 0);
    }
    let je = crate::json::ws_skip(&s, j);
    if je != s.len() {
        return None;
    }
    match o {
        Some(e) => Some(chars_to_string(&e)),
        None => None,
    }
}

// ---------------------------------------------------------------------------
// Executable renderer and the public string-level codec
// ---------------------------------------------------------------------------
fn push_opt_quoted(out: &mut Vec<char>, o: &Option<String>)
    ensures
        final(out)@ == old(out)@ + render_opt_string(
            match o {
                Some(t) => Some(t@),
                None => None,
            },
        ),
{
    match o {
        Some(t) => {
            let tc = str_to_chars(t.as_str());
            crate::json::push_quoted(out, &tc);
        },
        None => {
            let mut n = null_chars();
            out.append(&mut n);
        },
    }
}

/// Render a record in its canonical written form.
#[verifier::rlimit(80)]
pub fn render_credentials(c: &Credentials) -> (r: String)
    ensures
        r@ == spec_render_credentials(c@),
{
    let mut out: Vec<char> = Vec::new();
    out.push('{');
    let ak = at_key_chars();
    crate::json::push_quoted(&mut out, &ak);
    out.push(':');
    let atc = str_to_chars(c.access_token.as_str());
    crate::json::push_quoted(&mut out, &atc);
    out.push(',');
    let rk = rt_key_chars();
    crate::json::push_quoted(&mut out, &rk);
    out.push(':');
    push_opt_quoted(&mut out, &c.refresh_token);
    out.push(',');
    let tk = tt_key_chars();
    crate::json::push_quoted(&mut out, &tk);
    out.push(':');
    push_opt_quoted(&mut out, &c.token_type);
    out.push(',');
    let ek = ed_key_chars();
    crate::json::push_quoted(&mut out, &ek);
    out.push(':');
    match &c.expiry_date {
        Some(v) => {
            crate::json::push_int(&mut out, *v);
        },
        None => {
            let mut n = null_chars();
            out.append(&mut n);
        },
    }
    out.push(',');
    let uk = ui_key_chars();
    crate::json::push_quoted(&mut out, &uk);
    out.push(':');
    match &c.user_info {
        Some(u) => {
            out.push('{');
            let emk = email_key_chars();
            crate::json::push_quoted(&mut out, &emk);
            out.push(':');
            let ec = str_to_chars(u.email.as_str());
            crate::json::push_quoted(&mut out, &ec);
            out.push('}');
        },
        None => {
            let mut n = null_chars();
            out.append(&mut n);
        },
    }
    out.push('}');
    proof {
        assert(out@ =~= spec_render_credentials(c@));
    }
    chars_to_string(&out)
}

/// Parse a text as a credential record; `None` means the text is corrupt.
pub fn parse_credentials(content: &str) -> (r: Option<Credentials>)
    ensures
        match parse_credentials_text(content@) {
            Some(cv) => r is Some && r->Some_0@ == cv,
            None => r is None,
        },
{
    let v = str_to_chars(content);
    parse_credentials_chars(&v)
}

// ---------------------------------------------------------------------------
// The credential store's pure half: the fixed path and the codec. The file
// system operations themselves live with the caller, which hands the file's
// content in and takes the rendered text out.
// ---------------------------------------------------------------------------
/// Why a read of the store failed.
#[derive(Clone, Copy, Debug, PartialEq, Eq, Structural)]
pub enum StoreError {
    /// The backing file does not exist.
    NotFound,
    /// The backing file exists but does not hold a valid record.
    Corrupt,
}

/// The fixed location of the single persisted record.
pub struct CredentialStore {
    pub credentials_path: String,
}

impl CredentialStore {
    /// The store's path under the given home directory.
    pub fn new(home_dir: &str) -> (r: Self)
        ensures
            r.credentials_path@ == home_dir@ + "/.zos/oauth_creds.json"@,
    {
        let mut p = String::from_str(home_dir);
        p.append("/.zos/oauth_creds.json");
        CredentialStore { credentials_path: p }
    }

    /// Interpret what a read of the backing file produced: no file is
    /// `NotFound`, a file that is not a valid record is `Corrupt`.
    pub fn decode_read(content: Option<&str>) -> (r: Result<Credentials, StoreError>)
        ensures
            match content {
                None => r == Err::<Credentials, StoreError>(StoreError::NotFound),
                Some(text) => match parse_credentials_text(text@) {
                    Some(cv) => r is Ok && r->Ok_0@ == cv,
                    None => r == Err::<Credentials, StoreError>(StoreError::Corrupt),
                },
            },
    {
        match content {
            None => Err(StoreError::NotFound),
            Some(text) => match parse_credentials(text) {
                Some(c) => Ok(c),
                None => Err(StoreError::Corrupt),
            },
        }
    }

    /// The text to write when persisting a record.
    pub fn encode(c: &Credentials) -> (r: String)
        ensures
            r@ == spec_render_credentials(c@),
    {
        render_credentials(c)
    }
}

} // verus!
