//! The scope catalogue: parsing the pasted "API, version / Scopes /
//! url<TAB>description" listing into API groups, and checking granted
//! scopes against required ones.

use vstd::prelude::*;
use crate::chars::{str_to_chars, chars_to_string};
use crate::credentials::chars_eq;

verus! {

/// One scope of an API: its URL and its description.
#[derive(Debug, Clone, PartialEq, Eq)]
pub struct Scope {
    pub url: String,
    pub description: String,
}

/// One API with its scopes.
#[derive(Debug, Clone, PartialEq, Eq)]
pub struct ApiGroup {
    pub name: String,
    pub scopes: Vec<Scope>,
}

/// A scope at the specification level.
pub struct ScopeV {
    pub url: Seq<char>,
    pub description: Seq<char>,
}

/// An API group at the specification level.
pub struct GroupV {
    pub name: Seq<char>,
    pub scopes: Seq<ScopeV>,
}

impl View for Scope {
    type V = ScopeV;

    open spec fn view(&self) -> ScopeV {
        ScopeV { url: self.url@, description: self.description@ }
    }
}

impl View for ApiGroup {
    type V = GroupV;

    open spec fn view(&self) -> GroupV {
        GroupV { name: self.name@, scopes: self.scopes@.map_values(|s: Scope| s@) }
    }
}

// ---------------------------------------------------------------------------
// Specification of the listing's format
// ---------------------------------------------------------------------------
/// Does `l` end with `suf`?
pub open spec fn ends_with(l: Seq<char>, suf: Seq<char>) -> bool {
    l.len() >= suf.len() && l.subrange(l.len() - suf.len(), l.len() as int) == suf
}

/// A header line names an API with one of the known version suffixes.
pub open spec fn is_header(l: Seq<char>) -> bool {
    ||| ends_with(l, ", v1"@)
    ||| ends_with(l, ", v2"@)
    ||| ends_with(l, ", v3"@)
    ||| ends_with(l, ", v4"@)
    ||| ends_with(l, ", v5"@)
    ||| ends_with(l, ", v1beta1"@)
    ||| ends_with(l, ", v2beta1"@)
    ||| ends_with(l, ", v2beta"@)
    ||| ends_with(l, ", v2alpha1"@)
    ||| ends_with(l, ", v1b3"@)
    ||| ends_with(l, ", v1management"@)
    ||| ends_with(l, ", v1configuration"@)
}

/// First tab at or after `i`, or the end of the line.
pub open spec fn tab_pos(l: Seq<char>, i: int) -> int
    decreases l.len() - i,
{
    if 0 <= i < l.len() && l[i] != '\t' {
        tab_pos(l, i + 1)
    } else {
        i
    }
}

/// First line break at or after `i`, or the end of the text.
pub open spec fn line_end(s: Seq<char>, i: int) -> int
    decreases s.len() - i,
{
    if 0 <= i < s.len() && s[i] != '\n' {
        line_end(s, i + 1)
    } else {
        i
    }
}

pub proof fn lemma_line_end_bounds(s: Seq<char>, i: int)
    requires
        0 <= i <= s.len(),
    ensures
        i <= line_end(s, i) <= s.len(),
    decreases s.len() - i,
{
    if i < s.len() && s[i] != '\n' {
        lemma_line_end_bounds(s, i + 1);
    }
}

/// A line with its trailing carriage return removed.
pub open spec fn strip_cr(l: Seq<char>) -> Seq<char> {
    if l.len() > 0 && l.last() == '\r' {
        l.drop_last()
    } else {
        l
    }
}

/// The lines of a text, as `str::lines` cuts them.
pub open spec fn split_lines(s: Seq<char>, i: int) -> Seq<Seq<char>>
    decreases s.len() - i,
{
    if !(0 <= i < s.len()) {
        Seq::empty()
    } else {
        let e = line_end(s, i);
        if !(i <= e && e <= s.len()) {
            Seq::empty()
        } else if e < s.len() {
            seq![strip_cr(s.subrange(i, e))] + split_lines(s, e + 1)
        } else {
            seq![strip_cr(s.subrange(i, e))]
        }
    }
}

/// What the listing's lines mean, one line at a time: a header opens a new
/// group (closing the current one), the word `Scopes` and anything before
/// the first header are skipped, and a line with a tab adds a scope with
/// the text before the tab as the URL and the rest as the description.
pub open spec fn parse_info_lines(
    lines: Seq<Seq<char>>,
    cur: Option<GroupV>,
    acc: Seq<GroupV>,
) -> Seq<GroupV>
    decreases lines.len(),
{
    if lines.len() == 0 {
        match cur {
            Some(g) => acc.push(g),
            None => acc,
        }
    } else {
        let l = lines[0];
        let rest = lines.drop_first();
        if l.len() == 0 {
            parse_info_lines(rest, cur, acc)
        } else if is_header(l) {
            let fresh = GroupV { name: l, scopes: Seq::empty() };
            match cur {
                Some(g) => parse_info_lines(rest, Some(fresh), acc.push(g)),
                None => parse_info_lines(rest, Some(fresh), acc),
            }
        } else if l == "Scopes"@ {
            parse_info_lines(rest, cur, acc)
        } else {
            match cur {
                None => parse_info_lines(rest, cur, acc),
                Some(g) => {
                    let t = tab_pos(l, 0);
                    if 0 <= t < l.len() {
                        let sc = ScopeV {
                            url: l.subrange(0, t),
                            description: l.subrange(t + 1, l.len() as int),
                        };
                        parse_info_lines(
                            rest,
                            Some(GroupV { name: g.name, scopes: g.scopes.push(sc) }),
                            acc,
                        )
                    } else {
                        parse_info_lines(rest, cur, acc)
                    }
                },
            }
        }
    }
}

/// The API groups a whole listing holds.
pub open spec fn parse_info(s: Seq<char>) -> Seq<GroupV> {
    parse_info_lines(split_lines(s, 0), None, Seq::empty())
}

// ---------------------------------------------------------------------------
// Executable parser
// ---------------------------------------------------------------------------
#[verifier::loop_isolation(false)]
fn ends_with_chars(l: &Vec<char>, suf: &str) -> (r: bool)
    ensures
        r == ends_with(l@, suf@),
{
    let sv = str_to_chars(suf);
    if l.len() < sv.len() {
        return false;
    }
    let off = l.len() - sv.len();
    let mut k: usize = 0;
    while k < sv.len()
        invariant
            k <= sv@.len(),
            sv@.len() <= l@.len(),
            off == l@.len() - sv@.len(),
            forall|m: int| 0 <= m < k ==> l@[off + m] == sv@[m],
        decreases sv@.len() - k,
    {
        if l[off + k] != sv[k] {
            proof {
                assert(l@.subrange(off as int, l@.len() as int)[k as int] == l@[off + k]);
            }
            return false;
        }
        k = k + 1;
    }
    proof {
        assert(l@.subrange(l@.len() - suf@.len(), l@.len() as int) =~= suf@);
    }
    true
}

fn is_header_exec(l: &Vec<char>) -> (r: bool)
    ensures
        r == is_header(l@),
{
    ends_with_chars(l, ", v1") || ends_with_chars(l, ", v2") || ends_with_chars(l, ", v3")
        || ends_with_chars(l, ", v4") || ends_with_chars(l, ", v5") || ends_with_chars(
        l,
        ", v1beta1",
    ) || ends_with_chars(l, ", v2beta1") || ends_with_chars(l, ", v2beta") || ends_with_chars(
        l,
        ", v2alpha1",
    ) || ends_with_chars(l, ", v1b3") || ends_with_chars(l, ", v1management") || ends_with_chars(
        l,
        ", v1configuration",
    )
}

/// Copy `s[a..b]` into a fresh vector.
fn copy_range(s: &Vec<char>, a: usize, b: usize) -> (r: Vec<char>)
    requires
        a <= b <= s@.len(),
    ensures
        r@ == s@.subrange(a as int, b as int),
{
    let mut out: Vec<char> = Vec::new();
    let mut k = a;
    while k < b
        invariant
            a <= k <= b <= s@.len(),
            out@ == s@.subrange(a as int, k as int),
        decreases b - k,
    {
        out.push(s[k]);
        proof {
            assert(out@ =~= s@.subrange(a as int, k + 1 as int));
        }
        k = k + 1;
    }
    out
}

/// Parse the scope listing into its API groups.
#[verifier::loop_isolation(false)]
#[verifier::rlimit(100)]
pub fn parse_info_file(content: &str) -> (r: Vec<ApiGroup>)
    ensures
        r@.map_values(|g: ApiGroup| g@) == parse_info(content@),
{
    let s = str_to_chars(content);
    let mut acc: Vec<ApiGroup> = Vec::new();
    let mut cur: Option<ApiGroup> = None;
    let mut i: usize = 0;
    proof {
        assert(acc@.map_values(|g: ApiGroup| g@) =~= Seq::<GroupV>::empty());
    }
    while i < s.len()
        invariant
            i <= s@.len(),
            parse_info(content@) == parse_info_lines(
                split_lines(s@, i as int),
                match cur {
                    Some(g) => Some(g@),
                    None => None,
                },
                acc@.map_values(|g: ApiGroup| g@),
            ),
        decreases s@.len() - i,
    {
        // Find the end of the line and cut it out.
        let mut e = i;
        while e < s.len() && s[e] != '\n'
            invariant
                i <= e <= s@.len(),
                line_end(s@, i as int) == line_end(s@, e as int),
            decreases s@.len() - e,
        {
            e = e + 1;
        }
        let mut line = copy_range(&s, i, e);
        if line.len() > 0 && line[line.len() - 1] == '\r' {
            line.pop();
            proof {
                assert(line@ =~= strip_cr(s@.subrange(i as int, e as int)));
            }
        }
        proof {
            assert(line@ == strip_cr(s@.subrange(i as int, e as int)));
            if e < s@.len() {
                assert(split_lines(s@, i as int) =~= seq![line@] + split_lines(s@, e + 1 as int));
            } else {
                assert(split_lines(s@, i as int) =~= seq![line@]);
            }
            assert(split_lines(s@, i as int).drop_first() =~= if e < s@.len() {
                split_lines(s@, e + 1 as int)
            } else {
                Seq::<Seq<char>>::empty()
            });
        }
        // Classify the line.
        if line.len() == 0 {
            // skipped
        } else if is_header_exec(&line) {
            let fresh = ApiGroup { name: chars_to_string(&line), scopes: Vec::new() };
            proof {
                assert(fresh@.scopes =~= Seq::<ScopeV>::empty());
            }
            match cur.take() {
                Some(g) => {
                    let ghost accv = acc@.map_values(|x: ApiGroup| x@);
                    acc.push(g);
                    proof {
                        assert(acc@.map_values(|x: ApiGroup| x@) =~= accv.push(g@));
                    }
                },
                None => {},
            }
            cur = Some(fresh);
        } else {
            let scopes_word = str_to_chars("Scopes");
            if chars_eq(&line, &scopes_word) {
                // skipped
            } else {
                match cur.take() {
                    None => {
                        cur = None;
                    },
                    Some(g) => {
                        let mut t: usize = 0;
                        while t < line.len() && line[t] != '\t'
                            invariant
                                t <= line@.len(),
                                tab_pos(line@, 0) == tab_pos(line@, t as int),
                            decreases line@.len() - t,
                        {
                            t = t + 1;
                        }
                        if t < line.len() {
                            let url = copy_range(&line, 0, t);
                            let desc = copy_range(&line, t + 1, line.len());
                            let sc = Scope {
                                url: chars_to_string(&url),
                                description: chars_to_string(&desc),
                            };
                            let mut g2 = g;
                            let ghost gv = g2@;
                            g2.scopes.push(sc);
                            proof {
                                assert(g2@.scopes =~= gv.scopes.push(sc@));
                            }
                            cur = Some(g2);
                        } else {
                            cur = Some(g);
                        }
                    },
                }
            }
        }
        if e >= s.len() {
            i = e;
        } else {
            i = e + 1;
        }
    }
    proof {
        assert(split_lines(s@, i as int) =~= Seq::<Seq<char>>::empty());
    }
    match cur.take() {
        Some(g) => {
            let ghost accv = acc@.map_values(|x: ApiGroup| x@);
            acc.push(g);
            proof {
                assert(acc@.map_values(|x: ApiGroup| x@) =~= accv.push(g@));
            }
        },
        None => {},
    }
    acc
}

// ---------------------------------------------------------------------------
// Checking granted scopes
// ---------------------------------------------------------------------------
/// Every required scope stands among the granted ones.
pub open spec fn all_scopes_granted(req: Seq<Seq<char>>, granted: Seq<Seq<char>>) -> bool {
    forall|i: int|
        0 <= i < req.len() ==> exists|j: int|
            0 <= j < granted.len() && granted[j] == #[trigger] req[i]
}

/// Administrative access and the scopes it requires.
pub struct AdminAccess;

impl AdminAccess {
    /// The scopes administrative access requires.
    pub fn required_scopes() -> (r: Vec<&'static str>)
        ensures
            r@.len() == 2,
            r@[0]@ == "https://www.googleapis.com/auth/cloud-platform"@,
            r@[1]@ == "https://www.googleapis.com/auth/admin.directory.user"@,
    {
        let mut v: Vec<&'static str> = Vec::new();
        v.push("https://www.googleapis.com/auth/cloud-platform");
        v.push("https://www.googleapis.com/auth/admin.directory.user");
        v
    }

    /// Whether the granted scopes cover the required ones.
    pub fn check_access(granted: &Vec<String>) -> (r: bool)
        ensures
            r == all_scopes_granted(
                seq![
                    "https://www.googleapis.com/auth/cloud-platform"@,
                    "https://www.googleapis.com/auth/admin.directory.user"@,
                ],
                granted.deep_view(),
            ),
    {
        let a = contains_str(granted, "https://www.googleapis.com/auth/cloud-platform");
        let b = contains_str(granted, "https://www.googleapis.com/auth/admin.directory.user");
        let r = a && b;
        proof {
            let reqv = seq![
                "https://www.googleapis.com/auth/cloud-platform"@,
                "https://www.googleapis.com/auth/admin.directory.user"@,
            ];
            let gd = granted.deep_view();
            if r {
                assert forall|i: int| 0 <= i < reqv.len() implies exists|j: int|
                    0 <= j < gd.len() && gd[j] == #[trigger] reqv[i] by {
                    if i == 0 {
                        assert(reqv[0] == "https://www.googleapis.com/auth/cloud-platform"@);
                    } else {
                        assert(reqv[1] == "https://www.googleapis.com/auth/admin.directory.user"@);
                    }
                }
            } else if !a {
                assert(reqv[0] == "https://www.googleapis.com/auth/cloud-platform"@);
                assert(!all_scopes_granted(reqv, gd));
            } else {
                assert(reqv[1] == "https://www.googleapis.com/auth/admin.directory.user"@);
                assert(!all_scopes_granted(reqv, gd));
            }
        }
        r
    }
}

/// Whether some granted scope equals `s`.
fn contains_str(granted: &Vec<String>, s: &str) -> (r: bool)
    ensures
        r == exists|j: int|
            0 <= j < granted.deep_view().len() && #[trigger] granted.deep_view()[j] == s@,
{
    let sv = str_to_chars(s);
    let mut j: usize = 0;
    while j < granted.len()
        invariant
            j <= granted@.len(),
            granted.deep_view().len() == granted@.len(),
            forall|m: int| 0 <= m < granted@.len() ==> granted.deep_view()[m] == #[trigger] granted@[m]@,
            sv@ == s@,
            forall|m: int| 0 <= m < j ==> #[trigger] granted.deep_view()[m] != s@,
        decreases granted@.len() - j,
    {
        let gv = str_to_chars(granted[j].as_str());
        if chars_eq(&gv, &sv) {
            proof {
                assert(granted.deep_view()[j as int] == s@);
            }
            return true;
        }
        j = j + 1;
    }
    false
}

} // verus!
