//! The round-trip law of the credential codec: a record written by the
//! renderer reads back as an equal record.

use vstd::prelude::*;
use crate::json::{
    ws_end, parse_string, parse_string_body, parse_int, lit_at, is_digit, is_ws, render_string,
    render_int, lemma_skip_split, lemma_ws_end_at, lemma_parse_render_string,
    lemma_parse_render_int,
};
use crate::credentials::{
    CredView, CredPartialV, empty_partial, at_key, rt_key, tt_key, ed_key, ui_key, email_key,
    null_lit, parse_opt_string_v, parse_opt_int_v, parse_ui_value, parse_ui_obj, parse_ui_fields,
    parse_cred_value, parse_cred_fields, finish_cred, parse_credentials_text, render_opt_string,
    render_opt_int, render_user_info, render_member, spec_render_credentials,
};

verus! {

/// An optional string written by the renderer reads back as itself.
proof fn lemma_rt_opt_string(s: Seq<char>, i: int, o: Option<Seq<char>>, rest: Seq<char>)
    requires
        0 <= i <= s.len(),
        s.skip(i) == render_opt_string(o) + rest,
    ensures
        parse_opt_string_v(s, i) == Some((o, i + render_opt_string(o).len())),
{
    match o {
        Some(t) => {
            lemma_parse_render_string(s, i, t, rest);
            lemma_skip_split(s, i, render_string(t), rest);
            assert(s[i] == render_string(t)[0]);
            assert(render_string(t)[0] == '"');
            lemma_ws_end_at(s, i);
        },
        None => {
            lemma_skip_split(s, i, null_lit(), rest);
            assert(s[i] == 'n');
            lemma_ws_end_at(s, i);
            assert(lit_at(s, i, null_lit()));
        },
    }
}

/// An optional integer written by the renderer reads back as itself.
proof fn lemma_rt_opt_int(s: Seq<char>, i: int, o: Option<i64>, rest: Seq<char>)
    requires
        0 <= i <= s.len(),
        s.skip(i) == render_opt_int(o) + rest,
        rest.len() == 0 || !is_digit(rest[0]),
    ensures
        parse_opt_int_v(s, i) == Some((o, i + render_opt_int(o).len())),
{
    match o {
        Some(v) => {
            lemma_parse_render_int(s, i, v, rest);
            lemma_skip_split(s, i, render_int(v as int), rest);
            assert(s[i] == render_int(v as int)[0]);
            if v == 0 {
                assert(render_int(0)[0] == '0');
            } else if v < 0 {
                assert(render_int(v as int)[0] == '-');
            } else {
                crate::json::lemma_dec_digits_shape(v as int);
                assert(is_digit(render_int(v as int)[0]));
            }
            assert(!is_ws(s[i]) && s[i] != 'n');
            lemma_ws_end_at(s, i);
        },
        None => {
            lemma_skip_split(s, i, null_lit(), rest);
            assert(s[i] == 'n');
            lemma_ws_end_at(s, i);
            assert(lit_at(s, i, null_lit()));
        },
    }
}

/// A `user_info` value written by the renderer reads back as itself.
proof fn lemma_rt_user_info(s: Seq<char>, i: int, o: Option<Seq<char>>, rest: Seq<char>)
    requires
        0 <= i <= s.len(),
        s.skip(i) == render_user_info(o) + rest,
    ensures
        parse_ui_value(s, i) == Some((o, i + render_user_info(o).len())),
{
    match o {
        Some(e) => {
            let ks = render_string(email_key());
            let es = render_string(e);
            let w = render_user_info(o);
            assert(w == seq!['{'] + ks + seq![':'] + es + seq!['}']);
            assert(s.skip(i) =~= seq!['{'] + (ks + (seq![':'] + (es + (seq!['}'] + rest)))));
            lemma_skip_split(s, i, seq!['{'], ks + (seq![':'] + (es + (seq!['}'] + rest))));
            assert(s[i] == '{');
            lemma_ws_end_at(s, i);
            let i1 = i + 1;
            lemma_parse_render_string(s, i1, email_key(), seq![':'] + (es + (seq!['}'] + rest)));
            lemma_skip_split(s, i1, ks, seq![':'] + (es + (seq!['}'] + rest)));
            assert(s[i1] == ks[0] && ks[0] == '"');
            lemma_ws_end_at(s, i1);
            let i2 = i1 + ks.len();
            lemma_skip_split(s, i2, seq![':'], es + (seq!['}'] + rest));
            assert(s[i2] == ':');
            lemma_ws_end_at(s, i2);
            let i3 = i2 + 1;
            lemma_parse_render_string(s, i3, e, seq!['}'] + rest);
            lemma_skip_split(s, i3, es, seq!['}'] + rest);
            assert(s[i3] == es[0] && es[0] == '"');
            lemma_ws_end_at(s, i3);
            let i4 = i3 + es.len();
            lemma_skip_split(s, i4, seq!['}'], rest);
            assert(s[i4] == '}');
            lemma_ws_end_at(s, i4);
            // The email key is its own first and only member.
            assert(parse_ui_fields(s, i1, None::<Seq<char>>) == Some((e, i4 + 1)));
            assert(parse_ui_obj(s, i1, None::<Seq<char>>) == Some((e, i4 + 1)));
            assert(i4 + 1 == i + w.len());
        },
        None => {
            lemma_skip_split(s, i, null_lit(), rest);
            assert(s[i] == 'n');
            lemma_ws_end_at(s, i);
            assert(lit_at(s, i, null_lit()));
        },
    }
}

/// The value of a member starts right after `"key":`.
proof fn lemma_member_value_pos(s: Seq<char>, i: int, key: Seq<char>, val: Seq<char>, rest2: Seq<char>)
    requires
        0 <= i <= s.len(),
        s.skip(i) == render_member(key, val) + rest2,
    ensures
        i + render_string(key).len() + 1 <= s.len(),
        s.skip(i + render_string(key).len() + 1) == val + rest2,
        s[i] == '"',
        s[i + render_string(key).len()] == ':',
{
    let ks = render_string(key);
    assert(s.skip(i) =~= ks + (seq![':'] + (val + rest2)));
    lemma_skip_split(s, i, ks, seq![':'] + (val + rest2));
    assert(s[i] == ks[0] && ks[0] == '"');
    let jk = i + ks.len();
    lemma_skip_split(s, jk, seq![':'], val + rest2);
    assert(s[jk] == ':');
}

/// One member followed by a comma: parsing moves on to the next member.
proof fn lemma_cred_member_mid(
    s: Seq<char>,
    i: int,
    key: Seq<char>,
    val: Seq<char>,
    p: CredPartialV,
    p2: CredPartialV,
    tail: Seq<char>,
)
    requires
        0 <= i <= s.len(),
        s.skip(i) == render_member(key, val) + (seq![','] + tail),
        parse_cred_value(s, i + render_string(key).len() + 1, key, p) == Some(
            (p2, i + render_member(key, val).len()),
        ),
    ensures
        parse_cred_fields(s, i, p) == parse_cred_fields(
            s,
            i + render_member(key, val).len() + 1,
            p2,
        ),
        s.skip(i + render_member(key, val).len() + 1) == tail,
        i + render_member(key, val).len() + 1 <= s.len(),
{
    let ks = render_string(key);
    let rest = seq![','] + tail;
    lemma_member_value_pos(s, i, key, val, rest);
    assert(s.skip(i) =~= ks + (seq![':'] + (val + rest)));
    lemma_parse_render_string(s, i, key, seq![':'] + (val + rest));
    lemma_ws_end_at(s, i);
    let jk = i + ks.len();
    lemma_ws_end_at(s, jk);
    let j4 = jk + 1;
    let vend = i + render_member(key, val).len();
    assert(vend == j4 + val.len());
    lemma_skip_split(s, j4, val, rest);
    lemma_skip_split(s, vend, seq![','], tail);
    assert(s[vend] == ',');
    lemma_ws_end_at(s, vend);
}

/// The last member: parsing closes the object at the end of its value.
proof fn lemma_cred_member_last(
    s: Seq<char>,
    i: int,
    key: Seq<char>,
    val: Seq<char>,
    p: CredPartialV,
    p2: CredPartialV,
)
    requires
        0 <= i <= s.len(),
        s.skip(i) == render_member(key, val) + seq!['}'],
        parse_cred_value(s, i + render_string(key).len() + 1, key, p) == Some(
            (p2, i + render_member(key, val).len()),
        ),
    ensures
        parse_cred_fields(s, i, p) == Some((p2, i + render_member(key, val).len() + 1)),
        i + render_member(key, val).len() + 1 == s.len(),
{
    let ks = render_string(key);
    let rest = seq!['}'];
    lemma_member_value_pos(s, i, key, val, rest);
    assert(s.skip(i) =~= ks + (seq![':'] + (val + rest)));
    lemma_parse_render_string(s, i, key, seq![':'] + (val + rest));
    lemma_ws_end_at(s, i);
    let jk = i + ks.len();
    lemma_ws_end_at(s, jk);
    let j4 = jk + 1;
    let vend = i + render_member(key, val).len();
    assert(vend == j4 + val.len());
    lemma_skip_split(s, j4, val, rest);
    lemma_skip_split(s, vend, seq!['}'], Seq::<char>::empty());
    assert(s.skip(vend) =~= seq!['}'] + Seq::<char>::empty());
    assert(s[vend] == '}');
    lemma_ws_end_at(s, vend);
}

// Named pieces of the rendered text and of the parse state, so that the
// round-trip proof can go one member at a time.
spec fn rt_m1(c: CredView) -> Seq<char> {
    render_member(at_key(), render_string(c.access_token))
}

spec fn rt_m2(c: CredView) -> Seq<char> {
    render_member(rt_key(), render_opt_string(c.refresh_token))
}

spec fn rt_m3(c: CredView) -> Seq<char> {
    render_member(tt_key(), render_opt_string(c.token_type))
}

spec fn rt_m4(c: CredView) -> Seq<char> {
    render_member(ed_key(), render_opt_int(c.expiry_date))
}

spec fn rt_m5(c: CredView) -> Seq<char> {
    render_member(ui_key(), render_user_info(c.email))
}

spec fn rt_tail5(c: CredView) -> Seq<char> {
    rt_m5(c) + seq!['}']
}

spec fn rt_tail4(c: CredView) -> Seq<char> {
    rt_m4(c) + (seq![','] + rt_tail5(c))
}

spec fn rt_tail3(c: CredView) -> Seq<char> {
    rt_m3(c) + (seq![','] + rt_tail4(c))
}

spec fn rt_tail2(c: CredView) -> Seq<char> {
    rt_m2(c) + (seq![','] + rt_tail3(c))
}

spec fn rt_tail1(c: CredView) -> Seq<char> {
    rt_m1(c) + (seq![','] + rt_tail2(c))
}

spec fn rt_pos2(c: CredView) -> int {
    1int + rt_m1(c).len() + 1
}

spec fn rt_pos3(c: CredView) -> int {
    rt_pos2(c) + rt_m2(c).len() + 1
}

spec fn rt_pos4(c: CredView) -> int {
    rt_pos3(c) + rt_m3(c).len() + 1
}

spec fn rt_pos5(c: CredView) -> int {
    rt_pos4(c) + rt_m4(c).len() + 1
}

spec fn rt_p1(c: CredView) -> CredPartialV {
    CredPartialV { at: Some(c.access_token), ..empty_partial() }
}

spec fn rt_p2(c: CredView) -> CredPartialV {
    CredPartialV { rt_seen: true, rt: c.refresh_token, ..rt_p1(c) }
}

spec fn rt_p3(c: CredView) -> CredPartialV {
    CredPartialV { tt_seen: true, tt: c.token_type, ..rt_p2(c) }
}

spec fn rt_p4(c: CredView) -> CredPartialV {
    CredPartialV { ed_seen: true, ed: c.expiry_date, ..rt_p3(c) }
}

spec fn rt_p5(c: CredView) -> CredPartialV {
    CredPartialV { ui_seen: true, ui: c.email, ..rt_p4(c) }
}

/// The keys of the five members are pairwise distinct: their lengths differ.
proof fn lemma_keys_distinct()
    ensures
        at_key() != rt_key() && at_key() != tt_key() && at_key() != ed_key() && at_key()
            != ui_key(),
        rt_key() != tt_key() && rt_key() != ed_key() && rt_key() != ui_key(),
        tt_key() != ed_key() && tt_key() != ui_key(),
        ed_key() != ui_key(),
{
    assert(at_key().len() == 12 && rt_key().len() == 13 && tt_key().len() == 10 && ed_key().len()
        == 11 && ui_key().len() == 9);
}

/// The rendered text opens the object at its first member.
#[verifier::spinoff_prover]
proof fn lemma_rt_entry(c: CredView)
    ensures
        ({
            let s = spec_render_credentials(c);
            &&& s.len() >= 2
            &&& s[0] == '{'
            &&& s[1] == '"'
            &&& s.skip(1) == rt_tail1(c)
        }),
{
    let s = spec_render_credentials(c);
    assert(s.skip(0) =~= s);
    assert(s =~= seq!['{'] + rt_tail1(c));
    lemma_skip_split(s, 0, seq!['{'], rt_tail1(c));
    assert(s[0] == '{');
    assert(s[1] == rt_tail1(c)[0]);
    assert(rt_tail1(c)[0] == render_string(at_key())[0]);
}

#[verifier::spinoff_prover]
proof fn lemma_rt_member1(c: CredView)
    requires
        c.wf(),
        spec_render_credentials(c).skip(1) == rt_tail1(c),
    ensures
        ({
            let s = spec_render_credentials(c);
            &&& rt_pos2(c) <= s.len()
            &&& s.skip(rt_pos2(c)) == rt_tail2(c)
            &&& parse_cred_fields(s, 1, empty_partial()) == parse_cred_fields(
                s,
                rt_pos2(c),
                rt_p1(c),
            )
        }),
{
    let s = spec_render_credentials(c);
    let v1 = render_string(c.access_token);
    lemma_keys_distinct();
    assert(1 <= s.len()) by {
        assert(s.skip(1).len() >= 0);
        assert(rt_tail1(c).len() > 0);
        if s.len() < 1 {
            assert(s.skip(1).len() == 0);
        }
    }
    lemma_member_value_pos(s, 1, at_key(), v1, seq![','] + rt_tail2(c));
    let j4: int = 1int + render_string(at_key()).len() + 1;
    lemma_parse_render_string(s, j4, c.access_token, seq![','] + rt_tail2(c));
    lemma_skip_split(s, j4, v1, seq![','] + rt_tail2(c));
    assert(s[j4] == v1[0] && v1[0] == '"');
    lemma_ws_end_at(s, j4);
    assert(parse_cred_value(s, j4, at_key(), empty_partial()) == Some((rt_p1(c), 1int + rt_m1(c).len())));
    lemma_cred_member_mid(s, 1, at_key(), v1, empty_partial(), rt_p1(c), rt_tail2(c));
}

#[verifier::spinoff_prover]
proof fn lemma_rt_member2(c: CredView)
    requires
        c.wf(),
        rt_pos2(c) <= spec_render_credentials(c).len(),
        spec_render_credentials(c).skip(rt_pos2(c)) == rt_tail2(c),
    ensures
        ({
            let s = spec_render_credentials(c);
            &&& rt_pos3(c) <= s.len()
            &&& s.skip(rt_pos3(c)) == rt_tail3(c)
            &&& parse_cred_fields(s, rt_pos2(c), rt_p1(c)) == parse_cred_fields(
                s,
                rt_pos3(c),
                rt_p2(c),
            )
        }),
{
    let s = spec_render_credentials(c);
    let i = rt_pos2(c);
    let v = render_opt_string(c.refresh_token);
    lemma_keys_distinct();
    lemma_member_value_pos(s, i, rt_key(), v, seq![','] + rt_tail3(c));
    let j4 = i + render_string(rt_key()).len() + 1;
    lemma_rt_opt_string(s, j4, c.refresh_token, seq![','] + rt_tail3(c));
    assert(parse_cred_value(s, j4, rt_key(), rt_p1(c)) == Some((rt_p2(c), i + rt_m2(c).len())));
    lemma_cred_member_mid(s, i, rt_key(), v, rt_p1(c), rt_p2(c), rt_tail3(c));
}

#[verifier::spinoff_prover]
proof fn lemma_rt_member3(c: CredView)
    requires
        c.wf(),
        rt_pos3(c) <= spec_render_credentials(c).len(),
        spec_render_credentials(c).skip(rt_pos3(c)) == rt_tail3(c),
    ensures
        ({
            let s = spec_render_credentials(c);
            &&& rt_pos4(c) <= s.len()
            &&& s.skip(rt_pos4(c)) == rt_tail4(c)
            &&& parse_cred_fields(s, rt_pos3(c), rt_p2(c)) == parse_cred_fields(
                s,
                rt_pos4(c),
                rt_p3(c),
            )
        }),
{
    let s = spec_render_credentials(c);
    let i = rt_pos3(c);
    let v = render_opt_string(c.token_type);
    lemma_keys_distinct();
    lemma_member_value_pos(s, i, tt_key(), v, seq![','] + rt_tail4(c));
    let j4 = i + render_string(tt_key()).len() + 1;
    lemma_rt_opt_string(s, j4, c.token_type, seq![','] + rt_tail4(c));
    assert(parse_cred_value(s, j4, tt_key(), rt_p2(c)) == Some((rt_p3(c), i + rt_m3(c).len())));
    lemma_cred_member_mid(s, i, tt_key(), v, rt_p2(c), rt_p3(c), rt_tail4(c));
}

#[verifier::spinoff_prover]
proof fn lemma_rt_member4(c: CredView)
    requires
        c.wf(),
        rt_pos4(c) <= spec_render_credentials(c).len(),
        spec_render_credentials(c).skip(rt_pos4(c)) == rt_tail4(c),
    ensures
        ({
            let s = spec_render_credentials(c);
            &&& rt_pos5(c) <= s.len()
            &&& s.skip(rt_pos5(c)) == rt_tail5(c)
            &&& parse_cred_fields(s, rt_pos4(c), rt_p3(c)) == parse_cred_fields(
                s,
                rt_pos5(c),
                rt_p4(c),
            )
        }),
{
    let s = spec_render_credentials(c);
    let i = rt_pos4(c);
    let v = render_opt_int(c.expiry_date);
    lemma_keys_distinct();
    lemma_member_value_pos(s, i, ed_key(), v, seq![','] + rt_tail5(c));
    let j4 = i + render_string(ed_key()).len() + 1;
    assert(!is_digit((seq![','] + rt_tail5(c))[0])) by {
        assert((',' as u32) == 44);
    }
    lemma_rt_opt_int(s, j4, c.expiry_date, seq![','] + rt_tail5(c));
    assert(parse_cred_value(s, j4, ed_key(), rt_p3(c)) == Some((rt_p4(c), i + rt_m4(c).len())));
    lemma_cred_member_mid(s, i, ed_key(), v, rt_p3(c), rt_p4(c), rt_tail5(c));
}

#[verifier::spinoff_prover]
proof fn lemma_rt_member5(c: CredView)
    requires
        c.wf(),
        rt_pos5(c) <= spec_render_credentials(c).len(),
        spec_render_credentials(c).skip(rt_pos5(c)) == rt_tail5(c),
    ensures
        parse_cred_fields(spec_render_credentials(c), rt_pos5(c), rt_p4(c)) == Some(
            (rt_p5(c), spec_render_credentials(c).len() as int),
        ),
{
    let s = spec_render_credentials(c);
    let i = rt_pos5(c);
    let v = render_user_info(c.email);
    lemma_keys_distinct();
    assert(s.skip(i) =~= rt_m5(c) + seq!['}']);
    lemma_member_value_pos(s, i, ui_key(), v, seq!['}']);
    let j4 = i + render_string(ui_key()).len() + 1;
    lemma_rt_user_info(s, j4, c.email, seq!['}']);
    assert(parse_cred_value(s, j4, ui_key(), rt_p4(c)) == Some((rt_p5(c), i + rt_m5(c).len())));
    lemma_cred_member_last(s, i, ui_key(), v, rt_p4(c), rt_p5(c));
}

/// The round trip of the credential codec: a well-formed record, written
/// and read back, is the same record.
pub proof fn lemma_credentials_round_trip(c: CredView)
    requires
        c.wf(),
    ensures
        parse_credentials_text(spec_render_credentials(c)) == Some(c),
{
    let s = spec_render_credentials(c);
    lemma_rt_entry(c);
    lemma_rt_member1(c);
    lemma_rt_member2(c);
    lemma_rt_member3(c);
    lemma_rt_member4(c);
    lemma_rt_member5(c);
    lemma_ws_end_at(s, 0);
    lemma_ws_end_at(s, 1);
    lemma_ws_end_at(s, s.len() as int);
    assert(parse_cred_fields(s, 1, empty_partial()) == Some((rt_p5(c), s.len() as int)));
    assert(finish_cred(rt_p5(c)) == Some(c));
}

} // verus!
