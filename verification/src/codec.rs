//! Reading persisted ledger lines back. The parser accepts the canonical
//! line format and is proved to invert the canonical writer, so a chain
//! that is persisted and reloaded re-derives byte-identical lines.

use crate::record::{
    bool_text, canon_text, category_name, category_wf, line_text, parse_category, str_items_text,
    str_list_text, DeedEvent,
};
use crate::value::{
    arr_items_text, dec_digits, digit_char, esc, esc_char, hex_char, int_text, obj_items_text,
    quoted, value_text, Value,
};
use vstd::arithmetic::div_mod::lemma_fundamental_div_mod;
use vstd::prelude::*;
use vstd::string::StrSliceExecFns;
use vstd::string::StringExecFns;

verus! {

/// The mathematical shape of an evidence value: what the canonical text
/// determines, independent of how strings are allocated.
#[verifier::ext_equal]
pub enum VView {
    Null,
    Bool(bool),
    IntV(int),
    Str(Seq<char>),
    Arr(Seq<VView>),
    Obj(Seq<(Seq<char>, VView)>),
}

/// The canonical text of a value view.
pub open spec fn vv_text(v: VView) -> Seq<char>
    decreases v,
{
    match v {
        VView::Null => seq!['n', 'u', 'l', 'l'],
        VView::Bool(b) => bool_text(b),
        VView::IntV(i) => int_text(i),
        VView::Str(s) => quoted(s),
        VView::Arr(vs) => seq!['['] + vv_arr_text(vs) + seq![']'],
        VView::Obj(ps) => seq!['{'] + vv_obj_text(ps) + seq!['}'],
    }
}

pub open spec fn vv_arr_text(vs: Seq<VView>) -> Seq<char>
    decreases vs,
{
    if vs.len() == 0 {
        Seq::empty()
    } else if vs.len() == 1 {
        vv_text(vs[0])
    } else {
        vv_text(vs[0]) + seq![','] + vv_arr_text(vs.skip(1))
    }
}

pub open spec fn vv_obj_text(ps: Seq<(Seq<char>, VView)>) -> Seq<char>
    decreases ps,
{
    if ps.len() == 0 {
        Seq::empty()
    } else if ps.len() == 1 {
        quoted(ps[0].0) + seq![':'] + vv_text(ps[0].1)
    } else {
        quoted(ps[0].0) + seq![':'] + vv_text(ps[0].1) + seq![','] + vv_obj_text(ps.skip(1))
    }
}

/// The view of a concrete value.
pub open spec fn value_view(v: Value) -> VView
    decreases v,
{
    match v {
        Value::Null => VView::Null,
        Value::Bool(b) => VView::Bool(b),
        Value::Int(i) => VView::IntV(i as int),
        Value::Str(s) => VView::Str(s@),
        Value::Arr(vs) => VView::Arr(view_list(vs@)),
        Value::Obj(ps) => VView::Obj(view_pairs(ps@)),
    }
}

pub open spec fn view_list(vs: Seq<Value>) -> Seq<VView>
    decreases vs,
{
    if vs.len() == 0 {
        Seq::empty()
    } else {
        seq![value_view(vs[0])] + view_list(vs.skip(1))
    }
}

pub open spec fn view_pairs(ps: Seq<(String, Value)>) -> Seq<(Seq<char>, VView)>
    decreases ps,
{
    if ps.len() == 0 {
        Seq::empty()
    } else {
        seq![(ps[0].0@, value_view(ps[0].1))] + view_pairs(ps.skip(1))
    }
}

/// A value's canonical text is a function of its view alone.
pub proof fn lemma_text_is_view(v: Value)
    ensures
        value_text(v) == vv_text(value_view(v)),
    decreases v,
{
    match v {
        Value::Arr(vs) => {
            lemma_list_text_is_view(vs@);
        },
        Value::Obj(ps) => {
            lemma_pairs_text_is_view(ps@);
        },
        _ => {},
    }
}

proof fn lemma_list_text_is_view(vs: Seq<Value>)
    ensures
        arr_items_text(vs) == vv_arr_text(view_list(vs)),
        view_list(vs).len() == vs.len(),
    decreases vs,
{
    if vs.len() == 0 {
    } else {
        lemma_text_is_view(vs[0]);
        lemma_list_text_is_view(vs.skip(1));
        assert(view_list(vs)[0] == value_view(vs[0]));
        assert(view_list(vs).skip(1) =~= view_list(vs.skip(1)));
    }
}

proof fn lemma_pairs_text_is_view(ps: Seq<(String, Value)>)
    ensures
        obj_items_text(ps) == vv_obj_text(view_pairs(ps)),
        view_pairs(ps).len() == ps.len(),
    decreases ps,
{
    if ps.len() == 0 {
    } else {
        lemma_text_is_view(ps[0].1);
        lemma_pairs_text_is_view(ps.skip(1));
        assert(view_pairs(ps)[0] == (ps[0].0@, value_view(ps[0].1)));
        assert(view_pairs(ps).skip(1) =~= view_pairs(ps.skip(1)));
    }
}

/// Consumes an exact literal prefix.
pub open spec fn p_lit(s: Seq<char>, lit: Seq<char>) -> Option<Seq<char>> {
    if s.len() >= lit.len() && s.take(lit.len() as int) == lit {
        Some(s.skip(lit.len() as int))
    } else {
        None
    }
}

/// A literal prefix always parses off.
pub proof fn lemma_p_lit(lit: Seq<char>, rest: Seq<char>)
    ensures
        p_lit(lit + rest, lit) == Some(rest),
{
    let s = lit + rest;
    assert(s.take(lit.len() as int) =~= lit);
    assert(s.skip(lit.len() as int) =~= rest);
}

proof fn lemma_char_inj(a: char, b: char)
    requires
        a as u32 == b as u32,
    ensures
        a == b,
{
}

proof fn lemma_char_round(n: u32)
    requires
        n < 32,
    ensures
        ((n as char) as u32) == n,
{
}

/// The value of a canonical hex digit.
pub open spec fn hex_val(c: char) -> int {
    if c == '0' {
        0
    } else if c == '1' {
        1
    } else if c == '2' {
        2
    } else if c == '3' {
        3
    } else if c == '4' {
        4
    } else if c == '5' {
        5
    } else if c == '6' {
        6
    } else if c == '7' {
        7
    } else if c == '8' {
        8
    } else if c == '9' {
        9
    } else if c == 'a' {
        10
    } else if c == 'b' {
        11
    } else if c == 'c' {
        12
    } else if c == 'd' {
        13
    } else if c == 'e' {
        14
    } else if c == 'f' {
        15
    } else {
        16
    }
}

/// Parses a string body after the opening quote, up to and including the
/// closing quote, undoing the canonical escapes.
pub open spec fn p_str_body(s: Seq<char>) -> Option<(Seq<char>, Seq<char>)>
    decreases s.len(),
{
    if s.len() == 0 {
        None
    } else if s[0] == '"' {
        Some((Seq::empty(), s.skip(1)))
    } else if s[0] == '\\' {
        if s.len() >= 2 && s[1] == '"' {
            cons_parsed('"', p_str_body(s.skip(2)))
        } else if s.len() >= 2 && s[1] == '\\' {
            cons_parsed('\\', p_str_body(s.skip(2)))
        } else if s.len() >= 6 && s[1] == 'u' && s[2] == '0' && s[3] == '0' && (s[4] == '0' || s[4]
            == '1') && hex_val(s[5]) < 16 {
            cons_parsed(
                ((hex_val(s[4]) * 16 + hex_val(s[5])) as u32) as char,
                p_str_body(s.skip(6)),
            )
        } else {
            None
        }
    } else if (s[0] as u32) >= 32 {
        cons_parsed(s[0], p_str_body(s.skip(1)))
    } else {
        None
    }
}

pub open spec fn cons_parsed(c: char, r: Option<(Seq<char>, Seq<char>)>) -> Option<
    (Seq<char>, Seq<char>),
> {
    match r {
        Some((v, rest)) => Some((seq![c] + v, rest)),
        None => None,
    }
}

/// Undoing the canonical escape of any string succeeds and returns it.
pub proof fn lemma_p_str_body(v: Seq<char>, rest: Seq<char>)
    ensures
        p_str_body(esc(v) + seq!['"'] + rest) == Some((v, rest)),
    decreases v.len(),
{
    let s = esc(v) + seq!['"'] + rest;
    if v.len() == 0 {
        assert(esc(v) == Seq::<char>::empty());
        assert(s =~= seq!['"'] + rest);
        assert(s[0] == '"');
        assert(s.skip(1) =~= rest);
        assert(v =~= Seq::<char>::empty());
    } else {
        let c = v[0];
        let tail = esc(v.skip(1)) + seq!['"'] + rest;
        assert(esc(v) == esc_char(c) + esc(v.skip(1)));
        assert(s =~= esc_char(c) + tail);
        lemma_p_str_body(v.skip(1), rest);
        if c == '"' {
            assert(s[0] == '\\' && s[1] == '"');
            assert(s.skip(2) =~= tail);
            assert(seq![c] + v.skip(1) =~= v);
        } else if c == '\\' {
            assert(s[0] == '\\' && s[1] == '\\');
            assert(s.skip(2) =~= tail);
            assert(seq![c] + v.skip(1) =~= v);
        } else if (c as u32) < 32 {
            let hi = c as u32 as int / 16;
            let lo = c as u32 as int % 16;
            assert(s[0] == '\\' && s[1] == 'u' && s[2] == '0' && s[3] == '0');
            assert(s[4] == hex_char(hi));
            assert(s[5] == hex_char(lo));
            assert(0 <= hi < 2);
            assert(0 <= lo < 16);
            assert(hex_val(hex_char(hi)) == hi);
            assert(hex_val(hex_char(lo)) == lo);
            assert(s.skip(6) =~= tail);
            let code: int = hex_val(s[4]) * 16 + hex_val(s[5]);
            assert(code == hi * 16 + lo);
            assert(code == c as u32);
            assert(0 <= code < 32);
            assert(code as u32 == code);
            lemma_char_round(code as u32);
            lemma_char_inj((code as u32) as char, c);
            assert(seq![c] + v.skip(1) =~= v);
        } else {
            assert(s[0] == c);
            assert(c != '"' && c != '\\');
            assert(s.skip(1) =~= tail);
            assert(seq![c] + v.skip(1) =~= v);
        }
    }
}


pub open spec fn is_digit(c: char) -> bool {
    48 <= c as u32 && c as u32 <= 57
}

pub open spec fn digit_val(c: char) -> int {
    c as u32 - 48
}

/// Splits a maximal run of leading digits.
pub open spec fn p_digits(s: Seq<char>) -> (Seq<char>, Seq<char>)
    decreases s.len(),
{
    if s.len() > 0 && is_digit(s[0]) {
        let (d, r) = p_digits(s.skip(1));
        (seq![s[0]] + d, r)
    } else {
        (Seq::empty(), s)
    }
}

/// The number a digit run denotes.
pub open spec fn digits_val(d: Seq<char>) -> int
    decreases d.len(),
{
    if d.len() == 0 {
        0
    } else {
        digits_val(d.drop_last()) * 10 + digit_val(d.last())
    }
}

/// Parses a canonical integer: an optional minus sign and a digit run
/// without leading zeros.
pub open spec fn p_int(s: Seq<char>) -> Option<(int, Seq<char>)> {
    if s.len() > 0 && s[0] == '-' {
        let (d, r) = p_digits(s.skip(1));
        if d.len() > 0 && (d.len() == 1 || d[0] != '0') && digits_val(d) > 0 {
            Some((-digits_val(d), r))
        } else {
            None
        }
    } else {
        let (d, r) = p_digits(s);
        if d.len() > 0 && (d.len() == 1 || d[0] != '0') {
            Some((digits_val(d), r))
        } else {
            None
        }
    }
}

proof fn lemma_digit_char_facts(x: int)
    requires
        0 <= x < 10,
    ensures
        is_digit(digit_char(x)),
        digit_val(digit_char(x)) == x,
        x > 0 ==> digit_char(x) != '0',
{
}

/// The canonical digits of a non-negative number: at least one digit,
/// all digits, no leading zero unless the number is zero.
proof fn lemma_dec_digits_shape(n: int)
    requires
        n >= 0,
    ensures
        dec_digits(n).len() >= 1,
        forall|i: int| 0 <= i < dec_digits(n).len() ==> is_digit(#[trigger] dec_digits(n)[i]),
        dec_digits(n).len() > 1 ==> dec_digits(n)[0] != '0',
        n > 0 ==> dec_digits(n)[0] != '0',
    decreases n,
{
    if n < 10 {
        lemma_digit_char_facts(n);
        assert(dec_digits(n) == seq![digit_char(n)]);
    } else {
        lemma_dec_digits_shape(n / 10);
        lemma_digit_char_facts(n % 10);
        let d = dec_digits(n / 10) + seq![digit_char(n % 10)];
        assert(dec_digits(n) == d);
        assert(d[0] == dec_digits(n / 10)[0]);
        assert(n / 10 > 0);
        assert forall|i: int| 0 <= i < d.len() implies is_digit(#[trigger] d[i]) by {
            if i < dec_digits(n / 10).len() {
                assert(d[i] == dec_digits(n / 10)[i]);
            } else {
                assert(d[i] == digit_char(n % 10));
            }
        }
    }
}

/// A digit run followed by a non-digit parses off exactly.
proof fn lemma_p_digits_append(d: Seq<char>, rest: Seq<char>)
    requires
        forall|i: int| 0 <= i < d.len() ==> is_digit(#[trigger] d[i]),
        rest.len() == 0 || !is_digit(rest[0]),
    ensures
        p_digits(d + rest) == (d, rest),
    decreases d.len(),
{
    let s = d + rest;
    if d.len() == 0 {
        assert(s =~= rest);
        assert(d =~= Seq::<char>::empty());
        if s.len() > 0 {
            assert(!is_digit(s[0]));
        }
    } else {
        assert(s[0] == d[0]);
        assert(s.skip(1) =~= d.skip(1) + rest);
        lemma_p_digits_append(d.skip(1), rest);
        assert(seq![s[0]] + d.skip(1) =~= d);
    }
}

/// The canonical digits of a number denote it.
proof fn lemma_digits_val_of_dec(n: int)
    requires
        n >= 0,
    ensures
        digits_val(dec_digits(n)) == n,
    decreases n,
{
    if n < 10 {
        lemma_digit_char_facts(n);
        let d = seq![digit_char(n)];
        assert(dec_digits(n) == d);
        assert(d.drop_last() =~= Seq::<char>::empty());
        assert(d.last() == digit_char(n));
        assert(digits_val(d.drop_last()) == 0);
        assert(digits_val(d) == digits_val(d.drop_last()) * 10 + digit_val(d.last()));
        assert(digits_val(d) == n);
    } else {
        lemma_digits_val_of_dec(n / 10);
        lemma_digit_char_facts(n % 10);
        let d = dec_digits(n / 10) + seq![digit_char(n % 10)];
        assert(dec_digits(n) == d);
        assert(d.drop_last() =~= dec_digits(n / 10));
        assert(d.last() == digit_char(n % 10));
        lemma_fundamental_div_mod(n, 10);
        assert(digits_val(d.drop_last()) == n / 10);
        assert(digit_val(d.last()) == n % 10);
        assert(digits_val(d) == digits_val(d.drop_last()) * 10 + digit_val(d.last()));
        assert(digits_val(d) == n);
    }
}

/// The canonical text of any integer, followed by a non-digit, parses
/// back to it.
pub proof fn lemma_p_int(n: int, rest: Seq<char>)
    requires
        rest.len() == 0 || !is_digit(rest[0]),
    ensures
        p_int(int_text(n) + rest) == Some((n, rest)),
{
    let s = int_text(n) + rest;
    if n < 0 {
        assert(int_text(n) == seq!['-'] + dec_digits(-n));
        assert(s[0] == '-');
        lemma_dec_digits_shape(-n);
        lemma_p_digits_append(dec_digits(-n), rest);
        lemma_digits_val_of_dec(-n);
        assert(s.skip(1) =~= dec_digits(-n) + rest);
    } else {
        lemma_dec_digits_shape(n);
        lemma_p_digits_append(dec_digits(n), rest);
        lemma_digits_val_of_dec(n);
        assert(s =~= dec_digits(n) + rest);
        assert(dec_digits(n)[0] != '-');
        assert(s[0] == dec_digits(n)[0]);
        assert(s[0] != '-') by {
            assert(is_digit(dec_digits(n)[0]));
        }
    }
}

/// The views of a list of strings.
pub open spec fn strs_views(l: Seq<String>) -> Seq<Seq<char>>
    decreases l.len(),
{
    if l.len() == 0 {
        Seq::empty()
    } else {
        seq![l[0]@] + strs_views(l.skip(1))
    }
}

/// Parses the items of a non-empty string list, consuming the closing
/// bracket.
pub open spec fn p_slist_items(s: Seq<char>, fuel: nat) -> Option<(Seq<Seq<char>>, Seq<char>)>
    decreases fuel,
{
    if fuel == 0 {
        None
    } else if s.len() > 0 && s[0] == '"' {
        match p_str_body(s.skip(1)) {
            Some((v, r)) => {
                if r.len() > 0 && r[0] == ',' {
                    match p_slist_items(r.skip(1), (fuel - 1) as nat) {
                        Some((vs, r2)) => Some((seq![v] + vs, r2)),
                        None => None,
                    }
                } else if r.len() > 0 && r[0] == ']' {
                    Some((seq![v], r.skip(1)))
                } else {
                    None
                }
            },
            None => None,
        }
    } else {
        None
    }
}

/// Parses a whole string list.
pub open spec fn p_slist(s: Seq<char>, fuel: nat) -> Option<(Seq<Seq<char>>, Seq<char>)> {
    if s.len() >= 2 && s[0] == '[' && s[1] == ']' {
        Some((Seq::empty(), s.skip(2)))
    } else if s.len() >= 1 && s[0] == '[' {
        p_slist_items(s.skip(1), fuel)
    } else {
        None
    }
}

proof fn lemma_p_slist_items(l: Seq<String>, rest: Seq<char>, fuel: nat)
    requires
        l.len() >= 1,
        fuel >= l.len(),
    ensures
        p_slist_items(str_items_text(l) + seq![']'] + rest, fuel) == Some((strs_views(l), rest)),
    decreases l.len(),
{
    if l.len() == 1 {
        let s = str_items_text(l) + seq![']'] + rest;
        assert(str_items_text(l) == quoted(l[0]@));
        assert(s[0] == '"');
        assert(s.skip(1) =~= esc(l[0]@) + seq!['"'] + (seq![']'] + rest));
        lemma_p_str_body(l[0]@, seq![']'] + rest);
        let r = seq![']'] + rest;
        assert(r[0] == ']');
        assert(r.skip(1) =~= rest);
        assert(strs_views(l) =~= seq![l[0]@]);
    } else {
        let s = str_items_text(l) + seq![']'] + rest;
        let tail_items = str_items_text(l.skip(1)) + seq![']'] + rest;
        assert(str_items_text(l) == quoted(l[0]@) + seq![','] + str_items_text(l.skip(1)));
        assert(s[0] == '"');
        assert(s.skip(1) =~= esc(l[0]@) + seq!['"'] + (seq![','] + tail_items));
        lemma_p_str_body(l[0]@, seq![','] + tail_items);
        let r = seq![','] + tail_items;
        assert(r[0] == ',');
        assert(r[0] != ']');
        assert(r.skip(1) =~= tail_items);
        lemma_p_slist_items(l.skip(1), rest, (fuel - 1) as nat);
        assert(strs_views(l) =~= seq![l[0]@] + strs_views(l.skip(1)));
    }
}

/// The canonical text of any string list parses back to its views, with
/// fuel at least its length plus one.
pub proof fn lemma_p_slist(l: Seq<String>, rest: Seq<char>, fuel: nat)
    requires
        fuel >= l.len() + 1,
    ensures
        p_slist(str_list_text(l) + rest, fuel) == Some((strs_views(l), rest)),
{
    let s = str_list_text(l) + rest;
    assert(s[0] == '[');
    if l.len() == 0 {
        assert(str_items_text(l) == Seq::<char>::empty());
        assert(s =~= seq!['[', ']'] + rest);
        assert(s[1] == ']');
        assert(s.skip(2) =~= rest);
        assert(strs_views(l) =~= Seq::<Seq<char>>::empty());
    } else {
        assert(s.skip(1) =~= str_items_text(l) + seq![']'] + rest);
        lemma_p_slist_items(l, rest, fuel);
        assert(str_items_text(l).len() > 0);
        assert(str_items_text(l)[0] == '"') by {
            if l.len() == 1 {
                assert(str_items_text(l) == quoted(l[0]@));
            } else {
                assert(str_items_text(l) == quoted(l[0]@) + seq![','] + str_items_text(
                    l.skip(1),
                ));
            }
            assert(quoted(l[0]@)[0] == '"');
        }
        assert(s[1] == '"');
        assert(s[1] != ']');
    }
}


/// The fuel a value needs to parse: one unit per structural step.
pub open spec fn vv_size(v: VView) -> int
    decreases v,
{
    match v {
        VView::Arr(vs) => 1 + vv_items_need(vs),
        VView::Obj(ps) => 1 + vv_pairs_need(ps),
        _ => 1,
    }
}

pub open spec fn vv_items_need(vs: Seq<VView>) -> int
    decreases vs,
{
    if vs.len() == 0 {
        1
    } else {
        1 + vv_size(vs[0]) + vv_items_need(vs.skip(1))
    }
}

pub open spec fn vv_pairs_need(ps: Seq<(Seq<char>, VView)>) -> int
    decreases ps,
{
    if ps.len() == 0 {
        1
    } else {
        1 + vv_size(ps[0].1) + vv_pairs_need(ps.skip(1))
    }
}

proof fn lemma_vv_size_pos(v: VView)
    ensures
        vv_size(v) >= 1,
    decreases v,
{
    match v {
        VView::Arr(vs) => {
            lemma_vv_items_need_pos(vs);
        },
        VView::Obj(ps) => {
            lemma_vv_pairs_need_pos(ps);
        },
        _ => {},
    }
}

proof fn lemma_vv_items_need_pos(vs: Seq<VView>)
    ensures
        vv_items_need(vs) >= 1,
    decreases vs,
{
    if vs.len() > 0 {
        lemma_vv_size_pos(vs[0]);
        lemma_vv_items_need_pos(vs.skip(1));
    }
}

proof fn lemma_vv_pairs_need_pos(ps: Seq<(Seq<char>, VView)>)
    ensures
        vv_pairs_need(ps) >= 1,
    decreases ps,
{
    if ps.len() > 0 {
        lemma_vv_size_pos(ps[0].1);
        lemma_vv_pairs_need_pos(ps.skip(1));
    }
}

/// Parses one value.
pub open spec fn p_vview(s: Seq<char>, fuel: nat) -> Option<(VView, Seq<char>)>
    decreases fuel,
{
    if fuel == 0 || s.len() == 0 {
        None
    } else if s[0] == 'n' {
        match p_lit(s, seq!['n', 'u', 'l', 'l']) {
            Some(r) => Some((VView::Null, r)),
            None => None,
        }
    } else if s[0] == 't' {
        match p_lit(s, seq!['t', 'r', 'u', 'e']) {
            Some(r) => Some((VView::Bool(true), r)),
            None => None,
        }
    } else if s[0] == 'f' {
        match p_lit(s, seq!['f', 'a', 'l', 's', 'e']) {
            Some(r) => Some((VView::Bool(false), r)),
            None => None,
        }
    } else if s[0] == '"' {
        match p_str_body(s.skip(1)) {
            Some((v, r)) => Some((VView::Str(v), r)),
            None => None,
        }
    } else if s[0] == '[' {
        if s.len() >= 2 && s[1] == ']' {
            Some((VView::Arr(Seq::empty()), s.skip(2)))
        } else {
            match p_vv_items(s.skip(1), (fuel - 1) as nat) {
                Some((vs, r)) => Some((VView::Arr(vs), r)),
                None => None,
            }
        }
    } else if s[0] == '{' {
        if s.len() >= 2 && s[1] == '}' {
            Some((VView::Obj(Seq::empty()), s.skip(2)))
        } else {
            match p_vv_pairs(s.skip(1), (fuel - 1) as nat) {
                Some((ps, r)) => Some((VView::Obj(ps), r)),
                None => None,
            }
        }
    } else {
        match p_int(s) {
            Some((i, r)) => Some((VView::IntV(i), r)),
            None => None,
        }
    }
}

/// Parses the items of a non-empty array, consuming the closing bracket.
pub open spec fn p_vv_items(s: Seq<char>, fuel: nat) -> Option<(Seq<VView>, Seq<char>)>
    decreases fuel,
{
    if fuel == 0 {
        None
    } else {
        match p_vview(s, (fuel - 1) as nat) {
            Some((v, r)) => {
                if r.len() > 0 && r[0] == ',' {
                    match p_vv_items(r.skip(1), (fuel - 1) as nat) {
                        Some((vs, r2)) => Some((seq![v] + vs, r2)),
                        None => None,
                    }
                } else if r.len() > 0 && r[0] == ']' {
                    Some((seq![v], r.skip(1)))
                } else {
                    None
                }
            },
            None => None,
        }
    }
}

/// Parses the pairs of a non-empty object, consuming the closing brace.
pub open spec fn p_vv_pairs(s: Seq<char>, fuel: nat) -> Option<
    (Seq<(Seq<char>, VView)>, Seq<char>),
>
    decreases fuel,
{
    if fuel == 0 {
        None
    } else if s.len() > 0 && s[0] == '"' {
        match p_str_body(s.skip(1)) {
            Some((k, r)) => {
                if r.len() > 0 && r[0] == ':' {
                    match p_vview(r.skip(1), (fuel - 1) as nat) {
                        Some((v, r2)) => {
                            if r2.len() > 0 && r2[0] == ',' {
                                match p_vv_pairs(r2.skip(1), (fuel - 1) as nat) {
                                    Some((ps, r3)) => Some((seq![(k, v)] + ps, r3)),
                                    None => None,
                                }
                            } else if r2.len() > 0 && r2[0] == '}' {
                                Some((seq![(k, v)], r2.skip(1)))
                            } else {
                                None
                            }
                        },
                        None => None,
                    }
                } else {
                    None
                }
            },
            None => None,
        }
    } else {
        None
    }
}

/// A value's canonical text never begins with a separator or a closer.
proof fn lemma_vv_text_first(v: VView)
    ensures
        vv_text(v).len() >= 1,
        vv_text(v)[0] != ']',
        vv_text(v)[0] != '}',
        vv_text(v)[0] != ',',
        vv_text(v)[0] != ':',
{
    match v {
        VView::IntV(i) => {
            if i < 0 {
                assert(vv_text(v)[0] == '-');
            } else {
                lemma_dec_digits_shape(i);
                assert(vv_text(v)[0] == dec_digits(i)[0]);
                assert(is_digit(dec_digits(i)[0]));
            }
        },
        VView::Null => {
            assert(vv_text(v)[0] == 'n');
        },
        VView::Bool(b) => {
            if b {
                assert(vv_text(v)[0] == 't');
            } else {
                assert(vv_text(v)[0] == 'f');
            }
        },
        VView::Str(s) => {
            assert(vv_text(v)[0] == '"');
        },
        VView::Arr(vs) => {
            assert(vv_text(v)[0] == '[');
        },
        VView::Obj(ps) => {
            assert(vv_text(v)[0] == '{');
        },
    }
}

/// The canonical text of any value parses back to it, under any fuel of
/// at least its size.
#[verifier::rlimit(60)]
pub proof fn lemma_p_vview(v: VView, rest: Seq<char>, fuel: nat)
    requires
        fuel >= vv_size(v),
        rest.len() == 0 || !is_digit(rest[0]),
    ensures
        p_vview(vv_text(v) + rest, fuel) == Some((v, rest)),
    decreases v, 0int,
{
    let s = vv_text(v) + rest;
    lemma_vv_text_first(v);
    assert(s[0] == vv_text(v)[0]);
    lemma_vv_size_pos(v);
    match v {
        VView::Null => {
            lemma_p_lit(seq!['n', 'u', 'l', 'l'], rest);
            assert(s =~= seq!['n', 'u', 'l', 'l'] + rest);
            assert(p_vview(s, fuel) =~= Some((v, rest)));
        },
        VView::Bool(b) => {
            if b {
                lemma_p_lit(seq!['t', 'r', 'u', 'e'], rest);
                assert(s =~= seq!['t', 'r', 'u', 'e'] + rest);
            } else {
                lemma_p_lit(seq!['f', 'a', 'l', 's', 'e'], rest);
                assert(s =~= seq!['f', 'a', 'l', 's', 'e'] + rest);
            }
            assert(p_vview(s, fuel) =~= Some((v, rest)));
        },
        VView::IntV(i) => {
            assert(s =~= int_text(i) + rest);
            lemma_p_int(i, rest);
            if i < 0 {
                assert(s[0] == '-');
                assert(s[0] != 'n' && s[0] != 't' && s[0] != 'f' && s[0] != '"' && s[0] != '['
                    && s[0] != '{');
            } else {
                lemma_dec_digits_shape(i);
                assert(is_digit(s[0]));
                assert(s[0] != 'n' && s[0] != 't' && s[0] != 'f' && s[0] != '"' && s[0] != '['
                    && s[0] != '{');
            }
            assert(p_vview(s, fuel) =~= Some((v, rest)));
        },
        VView::Str(str0) => {
            assert(s.skip(1) =~= esc(str0) + seq!['"'] + rest);
            lemma_p_str_body(str0, rest);
            assert(p_vview(s, fuel) =~= Some((v, rest)));
        },
        VView::Arr(vs) => {
            if vs.len() == 0 {
                assert(vv_arr_text(vs) == Seq::<char>::empty());
                assert(s =~= seq!['[', ']'] + rest);
                assert(s[1] == ']');
                assert(s.skip(2) =~= rest);
                assert(vs =~= Seq::<VView>::empty());
                assert(VView::Arr(vs) =~= VView::Arr(Seq::<VView>::empty()));
            } else {
                assert(s.skip(1) =~= vv_arr_text(vs) + seq![']'] + rest);
                lemma_vv_text_first(vs[0]);
                assert(vv_arr_text(vs)[0] == vv_text(vs[0])[0]) by {
                    if vs.len() == 1 {
                        assert(vv_arr_text(vs) == vv_text(vs[0]));
                    } else {
                        assert(vv_arr_text(vs) == vv_text(vs[0]) + seq![','] + vv_arr_text(
                            vs.skip(1),
                        ));
                    }
                }
                assert(s[1] == vv_text(vs[0])[0]);
                assert(s[1] != ']');
                lemma_p_vv_items(vs, rest, (fuel - 1) as nat);
            }
            assert(p_vview(s, fuel) =~= Some((v, rest)));
        },
        VView::Obj(ps) => {
            if ps.len() == 0 {
                assert(vv_obj_text(ps) == Seq::<char>::empty());
                assert(s =~= seq!['{', '}'] + rest);
                assert(s[1] == '}');
                assert(s.skip(2) =~= rest);
                assert(ps =~= Seq::<(Seq<char>, VView)>::empty());
                assert(VView::Obj(ps) =~= VView::Obj(Seq::<(Seq<char>, VView)>::empty()));
            } else {
                assert(s.skip(1) =~= vv_obj_text(ps) + seq!['}'] + rest);
                assert(vv_obj_text(ps)[0] == '"') by {
                    if ps.len() == 1 {
                        assert(vv_obj_text(ps) == quoted(ps[0].0) + seq![':'] + vv_text(
                            ps[0].1,
                        ));
                    } else {
                        assert(vv_obj_text(ps) == quoted(ps[0].0) + seq![':'] + vv_text(ps[0].1)
                            + seq![','] + vv_obj_text(ps.skip(1)));
                    }
                    assert(quoted(ps[0].0)[0] == '"');
                }
                assert(s[1] == '}' <==> false);
                lemma_p_vv_pairs(ps, rest, (fuel - 1) as nat);
            }
            assert(p_vview(s, fuel) =~= Some((v, rest)));
        },
    }
}

#[verifier::rlimit(60)]
proof fn lemma_p_vv_items(vs: Seq<VView>, rest: Seq<char>, fuel: nat)
    requires
        vs.len() >= 1,
        fuel >= vv_items_need(vs),
    ensures
        p_vv_items(vv_arr_text(vs) + seq![']'] + rest, fuel) == Some((vs, rest)),
    decreases vs, 1int,
{
    let s = vv_arr_text(vs) + seq![']'] + rest;
    lemma_vv_items_need_pos(vs.skip(1));
    lemma_vv_size_pos(vs[0]);
    if vs.len() == 1 {
        assert(vv_arr_text(vs) == vv_text(vs[0]));
        assert(s =~= vv_text(vs[0]) + (seq![']'] + rest));
        assert((seq![']'] + rest)[0] == ']');
        assert(!is_digit((seq![']'] + rest)[0]));
        lemma_p_vview(vs[0], seq![']'] + rest, (fuel - 1) as nat);
        let r = seq![']'] + rest;
        assert(r[0] == ']');
        assert(r[0] != ',');
        assert(r.skip(1) =~= rest);
        assert(seq![vs[0]] =~= vs);
    } else {
        let tail = vv_arr_text(vs.skip(1)) + seq![']'] + rest;
        assert(vv_arr_text(vs) == vv_text(vs[0]) + seq![','] + vv_arr_text(vs.skip(1)));
        assert(s =~= vv_text(vs[0]) + (seq![','] + tail));
        assert((seq![','] + tail)[0] == ',');
        assert(!is_digit((seq![','] + tail)[0]));
        lemma_p_vview(vs[0], seq![','] + tail, (fuel - 1) as nat);
        let r = seq![','] + tail;
        assert(r[0] == ',');
        assert(r.skip(1) =~= tail);
        lemma_p_vv_items(vs.skip(1), rest, (fuel - 1) as nat);
        assert(seq![vs[0]] + vs.skip(1) =~= vs);
    }
}

#[verifier::rlimit(60)]
proof fn lemma_p_vv_pairs(ps: Seq<(Seq<char>, VView)>, rest: Seq<char>, fuel: nat)
    requires
        ps.len() >= 1,
        fuel >= vv_pairs_need(ps),
    ensures
        p_vv_pairs(vv_obj_text(ps) + seq!['}'] + rest, fuel) == Some((ps, rest)),
    decreases ps, 1int,
{
    let s = vv_obj_text(ps) + seq!['}'] + rest;
    lemma_vv_pairs_need_pos(ps.skip(1));
    lemma_vv_size_pos(ps[0].1);
    if ps.len() == 1 {
        assert(vv_obj_text(ps) == quoted(ps[0].0) + seq![':'] + vv_text(ps[0].1));
        let after_key = seq![':'] + vv_text(ps[0].1) + seq!['}'] + rest;
        assert(s[0] == '"');
        assert(s.skip(1) =~= esc(ps[0].0) + seq!['"'] + after_key);
        lemma_p_str_body(ps[0].0, after_key);
        assert(after_key[0] == ':');
        assert(after_key.skip(1) =~= vv_text(ps[0].1) + (seq!['}'] + rest));
        assert((seq!['}'] + rest)[0] == '}');
        assert(!is_digit((seq!['}'] + rest)[0]));
        lemma_p_vview(ps[0].1, seq!['}'] + rest, (fuel - 1) as nat);
        let r2 = seq!['}'] + rest;
        assert(r2[0] == '}');
        assert(r2[0] != ',');
        assert(r2.skip(1) =~= rest);
        assert(seq![(ps[0].0, ps[0].1)] =~= ps);
    } else {
        let tail = vv_obj_text(ps.skip(1)) + seq!['}'] + rest;
        assert(vv_obj_text(ps) == quoted(ps[0].0) + seq![':'] + vv_text(ps[0].1) + seq![',']
            + vv_obj_text(ps.skip(1)));
        let after_key = seq![':'] + vv_text(ps[0].1) + seq![','] + tail;
        assert(s[0] == '"');
        assert(s.skip(1) =~= esc(ps[0].0) + seq!['"'] + after_key);
        lemma_p_str_body(ps[0].0, after_key);
        assert(after_key[0] == ':');
        assert(after_key.skip(1) =~= vv_text(ps[0].1) + (seq![','] + tail));
        assert((seq![','] + tail)[0] == ',');
        assert(!is_digit((seq![','] + tail)[0]));
        lemma_p_vview(ps[0].1, seq![','] + tail, (fuel - 1) as nat);
        let r2 = seq![','] + tail;
        assert(r2[0] == ',');
        assert(r2.skip(1) =~= tail);
        lemma_p_vv_pairs(ps.skip(1), rest, (fuel - 1) as nat);
        assert(seq![(ps[0].0, ps[0].1)] + ps.skip(1) =~= ps);
    }
}


/// Fuel of twice the text length always suffices for a value.
proof fn lemma_vv_size_le_text(v: VView)
    ensures
        vv_size(v) <= 2 * vv_text(v).len(),
    decreases v, 0int,
{
    match v {
        VView::IntV(i) => {
            assert(vv_text(v).len() >= 1) by {
                lemma_vv_text_first(v);
            }
        },
        VView::Arr(vs) => {
            if vs.len() == 0 {
            } else {
                lemma_vv_items_need_le_text(vs);
            }
        },
        VView::Obj(ps) => {
            if ps.len() == 0 {
            } else {
                lemma_vv_pairs_need_le_text(ps);
            }
        },
        _ => {},
    }
}

proof fn lemma_vv_items_need_le_text(vs: Seq<VView>)
    requires
        vs.len() >= 1,
    ensures
        vv_items_need(vs) <= 2 * vv_arr_text(vs).len() + 2,
    decreases vs, 1int,
{
    lemma_vv_size_le_text(vs[0]);
    lemma_vv_text_first(vs[0]);
    if vs.len() == 1 {
        assert(vv_items_need(vs.skip(1)) == 1);
    } else {
        lemma_vv_items_need_le_text(vs.skip(1));
    }
}

proof fn lemma_vv_pairs_need_le_text(ps: Seq<(Seq<char>, VView)>)
    requires
        ps.len() >= 1,
    ensures
        vv_pairs_need(ps) <= 2 * vv_obj_text(ps).len() + 2,
    decreases ps, 1int,
{
    lemma_vv_size_le_text(ps[0].1);
    lemma_vv_text_first(ps[0].1);
    assert(quoted(ps[0].0).len() >= 2);
    if ps.len() == 1 {
        assert(vv_pairs_need(ps.skip(1)) == 1);
    } else {
        lemma_vv_pairs_need_le_text(ps.skip(1));
    }
}

/// Parses `true` or `false`.
pub open spec fn p_bool(s: Seq<char>) -> Option<(bool, Seq<char>)> {
    match p_lit(s, seq!['t', 'r', 'u', 'e']) {
        Some(r) => Some((true, r)),
        None => match p_lit(s, seq!['f', 'a', 'l', 's', 'e']) {
            Some(r) => Some((false, r)),
            None => None,
        },
    }
}

proof fn lemma_p_bool(b: bool, rest: Seq<char>)
    ensures
        p_bool(bool_text(b) + rest) == Some((b, rest)),
{
    let s = bool_text(b) + rest;
    if b {
        lemma_p_lit(seq!['t', 'r', 'u', 'e'], rest);
        assert(s =~= seq!['t', 'r', 'u', 'e'] + rest);
    } else {
        lemma_p_lit(seq!['f', 'a', 'l', 's', 'e'], rest);
        assert(s =~= seq!['f', 'a', 'l', 's', 'e'] + rest);
        assert(s.len() >= 4 && s.take(4) == seq!['t', 'r', 'u', 'e'] <==> false) by {
            assert(s[0] == 'f');
            if s.len() >= 4 && s.take(4) == seq!['t', 'r', 'u', 'e'] {
                assert(s.take(4)[0] == 'f');
            }
        }
    }
}

/// The mathematical content of one persisted record line.
#[verifier::ext_equal]
pub struct RecordView {
    pub actor_id: Seq<char>,
    pub context: VView,
    pub deed_type: Seq<char>,
    pub ethics_flags: Seq<Seq<char>>,
    pub event_id: Seq<char>,
    pub life_harm_flag: bool,
    pub prev_hash: Seq<char>,
    pub self_hash: Seq<char>,
    pub tags: Seq<Seq<char>>,
    pub target_ids: Seq<Seq<char>>,
    pub timestamp: int,
}

/// What a record's persisted line determines about it.
pub open spec fn record_view(d: DeedEvent) -> RecordView {
    RecordView {
        actor_id: d.actor_id@,
        context: value_view(d.context_json),
        deed_type: category_name(d.category),
        ethics_flags: strs_views(d.ethics_flags@),
        event_id: d.event_id@,
        life_harm_flag: d.life_harm_flag,
        prev_hash: d.prev_hash@,
        self_hash: d.self_hash@,
        tags: strs_views(d.tags@),
        target_ids: strs_views(d.target_ids@),
        timestamp: d.timestamp as int,
    }
}

/// Parses one whole persisted line into its record view.
pub open spec fn p_record(s: Seq<char>, fuel: nat) -> Option<RecordView> {
    match p_lit(s, "{\"actor_id\":\""@) {
        None => None,
        Some(r1) => match p_str_body(r1) {
            None => None,
            Some((actor, r2)) => match p_lit(r2, ",\"context_json\":"@) {
                None => None,
                Some(r3) => match p_vview(r3, fuel) {
                    None => None,
                    Some((ctx, r4)) => match p_lit(r4, ",\"deed_type\":\""@) {
                        None => None,
                        Some(r5) => match p_str_body(r5) {
                            None => None,
                            Some((dt, r6)) => match p_lit(r6, ",\"ethics_flags\":"@) {
                                None => None,
                                Some(r7) => match p_slist(r7, fuel) {
                                    None => None,
                                    Some((eth, r8)) => p_record_tail(
                                        r8,
                                        fuel,
                                        actor,
                                        ctx,
                                        dt,
                                        eth,
                                    ),
                                },
                            },
                        },
                    },
                },
            },
        },
    }
}

pub open spec fn p_record_tail(
    s: Seq<char>,
    fuel: nat,
    actor: Seq<char>,
    ctx: VView,
    dt: Seq<char>,
    eth: Seq<Seq<char>>,
) -> Option<RecordView> {
    match p_lit(s, ",\"event_id\":\""@) {
        None => None,
        Some(r9) => match p_str_body(r9) {
            None => None,
            Some((eid, r10)) => match p_lit(r10, ",\"life_harm_flag\":"@) {
                None => None,
                Some(r11) => match p_bool(r11) {
                    None => None,
                    Some((harm, r12)) => match p_lit(r12, ",\"prev_hash\":\""@) {
                        None => None,
                        Some(r13) => match p_str_body(r13) {
                            None => None,
                            Some((prev, r14)) => match p_lit(r14, ",\"self_hash\":\""@) {
                                None => None,
                                Some(r15) => match p_str_body(r15) {
                                    None => None,
                                    Some((selfh, r16)) => p_record_tail2(
                                        r16,
                                        fuel,
                                        actor,
                                        ctx,
                                        dt,
                                        eth,
                                        eid,
                                        harm,
                                        prev,
                                        selfh,
                                    ),
                                },
                            },
                        },
                    },
                },
            },
        },
    }
}

pub open spec fn p_record_tail2(
    s: Seq<char>,
    fuel: nat,
    actor: Seq<char>,
    ctx: VView,
    dt: Seq<char>,
    eth: Seq<Seq<char>>,
    eid: Seq<char>,
    harm: bool,
    prev: Seq<char>,
    selfh: Seq<char>,
) -> Option<RecordView> {
    match p_lit(s, ",\"tags\":"@) {
        None => None,
        Some(r17) => match p_slist(r17, fuel) {
            None => None,
            Some((tags, r18)) => match p_lit(r18, ",\"target_ids\":"@) {
                None => None,
                Some(r19) => match p_slist(r19, fuel) {
                    None => None,
                    Some((tgts, r20)) => match p_lit(r20, ",\"timestamp\":"@) {
                        None => None,
                        Some(r21) => match p_int(r21) {
                            None => None,
                            Some((ts, r22)) => if r22 == seq!['}'] {
                                Some(
                                    RecordView {
                                        actor_id: actor,
                                        context: ctx,
                                        deed_type: dt,
                                        ethics_flags: eth,
                                        event_id: eid,
                                        life_harm_flag: harm,
                                        prev_hash: prev,
                                        self_hash: selfh,
                                        tags,
                                        target_ids: tgts,
                                        timestamp: ts,
                                    },
                                )
                            } else {
                                None
                            },
                        },
                    },
                },
            },
        },
    }
}


/// Named suffixes of a record's persisted line, one per field boundary.
pub open spec fn tail_ts(d: DeedEvent) -> Seq<char> {
    ",\"timestamp\":"@ + int_text(d.timestamp as int) + "}"@
}

pub open spec fn tail_tgt(d: DeedEvent) -> Seq<char> {
    ",\"target_ids\":"@ + str_list_text(d.target_ids@) + tail_ts(d)
}

pub open spec fn tail_tags(d: DeedEvent) -> Seq<char> {
    ",\"tags\":"@ + str_list_text(d.tags@) + tail_tgt(d)
}

pub open spec fn tail_selfh(d: DeedEvent) -> Seq<char> {
    ",\"self_hash\":"@ + quoted(d.self_hash@) + tail_tags(d)
}

pub open spec fn tail_prev(d: DeedEvent) -> Seq<char> {
    ",\"prev_hash\":"@ + quoted(d.prev_hash@) + tail_selfh(d)
}

pub open spec fn tail_harm(d: DeedEvent) -> Seq<char> {
    ",\"life_harm_flag\":"@ + bool_text(d.life_harm_flag) + tail_prev(d)
}

pub open spec fn tail_eid(d: DeedEvent) -> Seq<char> {
    ",\"event_id\":"@ + quoted(d.event_id@) + tail_harm(d)
}

pub open spec fn tail_eth(d: DeedEvent) -> Seq<char> {
    ",\"ethics_flags\":"@ + str_list_text(d.ethics_flags@) + tail_eid(d)
}

pub open spec fn tail_dt(d: DeedEvent) -> Seq<char> {
    ",\"deed_type\":"@ + quoted(category_name(d.category)) + tail_eth(d)
}

pub open spec fn tail_ctx(d: DeedEvent) -> Seq<char> {
    ",\"context_json\":"@ + value_text(d.context_json) + tail_dt(d)
}

#[verifier::rlimit(100)]
#[verifier::spinoff_prover]
proof fn lemma_line_is_tails(d: DeedEvent)
    ensures
        line_text(d) == "{\"actor_id\":\""@ + (esc(d.actor_id@) + seq!['"'] + tail_ctx(d)),
{
    reveal_strlit("{\"actor_id\":");
    reveal_strlit("{\"actor_id\":\"");
    assert(line_text(d) =~= "{\"actor_id\":\""@ + (esc(d.actor_id@) + seq!['"'] + tail_ctx(d)));
}

proof fn lemma_tail_ctx_shape(d: DeedEvent)
    ensures
        tail_ctx(d) == ",\"context_json\":"@ + (vv_text(value_view(d.context_json)) + tail_dt(
            d,
        )),
{
    lemma_text_is_view(d.context_json);
    assert(tail_ctx(d) =~= ",\"context_json\":"@ + (vv_text(value_view(d.context_json))
        + tail_dt(d)));
}

proof fn lemma_tail_dt_shape(d: DeedEvent)
    ensures
        tail_dt(d) == ",\"deed_type\":\""@ + (esc(category_name(d.category)) + seq!['"']
            + tail_eth(d)),
{
    reveal_strlit(",\"deed_type\":");
    reveal_strlit(",\"deed_type\":\"");
    assert(tail_dt(d) =~= ",\"deed_type\":\""@ + (esc(category_name(d.category)) + seq!['"']
        + tail_eth(d)));
}

proof fn lemma_tail_eth_shape(d: DeedEvent)
    ensures
        tail_eth(d) == ",\"ethics_flags\":"@ + (str_list_text(d.ethics_flags@) + tail_eid(d)),
{
    assert(tail_eth(d) =~= ",\"ethics_flags\":"@ + (str_list_text(d.ethics_flags@) + tail_eid(
        d,
    )));
}

proof fn lemma_tail_eid_shape(d: DeedEvent)
    ensures
        tail_eid(d) == ",\"event_id\":\""@ + (esc(d.event_id@) + seq!['"'] + tail_harm(d)),
{
    reveal_strlit(",\"event_id\":");
    reveal_strlit(",\"event_id\":\"");
    assert(tail_eid(d) =~= ",\"event_id\":\""@ + (esc(d.event_id@) + seq!['"'] + tail_harm(d)));
}

proof fn lemma_tail_harm_shape(d: DeedEvent)
    ensures
        tail_harm(d) == ",\"life_harm_flag\":"@ + (bool_text(d.life_harm_flag) + tail_prev(d)),
{
    assert(tail_harm(d) =~= ",\"life_harm_flag\":"@ + (bool_text(d.life_harm_flag) + tail_prev(
        d,
    )));
}

proof fn lemma_tail_prev_shape(d: DeedEvent)
    ensures
        tail_prev(d) == ",\"prev_hash\":\""@ + (esc(d.prev_hash@) + seq!['"'] + tail_selfh(d)),
{
    reveal_strlit(",\"prev_hash\":");
    reveal_strlit(",\"prev_hash\":\"");
    assert(tail_prev(d) =~= ",\"prev_hash\":\""@ + (esc(d.prev_hash@) + seq!['"'] + tail_selfh(
        d,
    )));
}

proof fn lemma_tail_selfh_shape(d: DeedEvent)
    ensures
        tail_selfh(d) == ",\"self_hash\":\""@ + (esc(d.self_hash@) + seq!['"'] + tail_tags(d)),
{
    reveal_strlit(",\"self_hash\":");
    reveal_strlit(",\"self_hash\":\"");
    assert(tail_selfh(d) =~= ",\"self_hash\":\""@ + (esc(d.self_hash@) + seq!['"'] + tail_tags(
        d,
    )));
}

proof fn lemma_tail_tags_shape(d: DeedEvent)
    ensures
        tail_tags(d) == ",\"tags\":"@ + (str_list_text(d.tags@) + tail_tgt(d)),
{
    assert(tail_tags(d) =~= ",\"tags\":"@ + (str_list_text(d.tags@) + tail_tgt(d)));
}

proof fn lemma_tail_tgt_shape(d: DeedEvent)
    ensures
        tail_tgt(d) == ",\"target_ids\":"@ + (str_list_text(d.target_ids@) + tail_ts(d)),
{
    assert(tail_tgt(d) =~= ",\"target_ids\":"@ + (str_list_text(d.target_ids@) + tail_ts(d)));
}

proof fn lemma_tail_ts_shape(d: DeedEvent)
    ensures
        tail_ts(d) == ",\"timestamp\":"@ + (int_text(d.timestamp as int) + "}"@),
        "}"@ == seq!['}'],
{
    reveal_strlit("}");
    assert("}"@ =~= seq!['}']);
    assert(tail_ts(d) =~= ",\"timestamp\":"@ + (int_text(d.timestamp as int) + "}"@));
}

/// A string list's text is longer than the list.
proof fn lemma_str_list_len(l: Seq<String>)
    ensures
        str_list_text(l).len() >= l.len() + 1,
        str_items_text(l).len() >= l.len(),
    decreases l.len(),
{
    if l.len() > 0 {
        lemma_str_list_len(l.skip(1));
        assert(quoted(l[0]@).len() >= 2);
    }
}

/// The persisted line of any record parses back to exactly the record's
/// view, under fuel of at least twice the line's length: what is written
/// is what is read.
#[verifier::rlimit(80)]
pub proof fn lemma_p_record_of_line(d: DeedEvent, fuel: nat)
    requires
        fuel >= 2 * line_text(d).len(),
    ensures
        p_record(line_text(d), fuel) == Some(record_view(d)),
{
    let s = line_text(d);
    lemma_line_is_tails(d);
    lemma_p_lit("{\"actor_id\":\""@, esc(d.actor_id@) + seq!['"'] + tail_ctx(d));
    lemma_p_str_body(d.actor_id@, tail_ctx(d));

    let cv = value_view(d.context_json);
    lemma_tail_ctx_shape(d);
    lemma_p_lit(",\"context_json\":"@, vv_text(cv) + tail_dt(d));
    lemma_vv_size_le_text(cv);
    assert(vv_text(cv).len() <= s.len()) by {
        lemma_line_is_tails(d);
        lemma_tail_ctx_shape(d);
    }
    assert(tail_dt(d)[0] == ',') by {
        lemma_tail_dt_shape(d);
        reveal_strlit(",\"deed_type\":\"");
    }
    assert(!is_digit(tail_dt(d)[0]));
    lemma_p_vview(cv, tail_dt(d), fuel);

    lemma_tail_dt_shape(d);
    lemma_p_lit(",\"deed_type\":\""@, esc(category_name(d.category)) + seq!['"'] + tail_eth(d));
    lemma_p_str_body(category_name(d.category), tail_eth(d));

    lemma_tail_eth_shape(d);
    lemma_p_lit(",\"ethics_flags\":"@, str_list_text(d.ethics_flags@) + tail_eid(d));
    lemma_str_list_len(d.ethics_flags@);
    assert(str_list_text(d.ethics_flags@).len() <= s.len()) by {
        lemma_line_is_tails(d);
        lemma_tail_ctx_shape(d);
        lemma_tail_dt_shape(d);
        lemma_tail_eth_shape(d);
    }
    lemma_p_slist(d.ethics_flags@, tail_eid(d), fuel);

    lemma_p_record_tail_of(d, fuel);
    assert(p_record(s, fuel) =~= Some(record_view(d)));
}

#[verifier::rlimit(80)]
proof fn lemma_p_record_tail_of(d: DeedEvent, fuel: nat)
    requires
        fuel >= 2 * line_text(d).len(),
    ensures
        p_record_tail(
            tail_eid(d),
            fuel,
            d.actor_id@,
            value_view(d.context_json),
            category_name(d.category),
            strs_views(d.ethics_flags@),
        ) == Some(record_view(d)),
{
    lemma_tail_eid_shape(d);
    lemma_p_lit(",\"event_id\":\""@, esc(d.event_id@) + seq!['"'] + tail_harm(d));
    lemma_p_str_body(d.event_id@, tail_harm(d));

    lemma_tail_harm_shape(d);
    lemma_p_lit(",\"life_harm_flag\":"@, bool_text(d.life_harm_flag) + tail_prev(d));
    lemma_p_bool(d.life_harm_flag, tail_prev(d));

    lemma_tail_prev_shape(d);
    lemma_p_lit(",\"prev_hash\":\""@, esc(d.prev_hash@) + seq!['"'] + tail_selfh(d));
    lemma_p_str_body(d.prev_hash@, tail_selfh(d));

    lemma_tail_selfh_shape(d);
    lemma_p_lit(",\"self_hash\":\""@, esc(d.self_hash@) + seq!['"'] + tail_tags(d));
    lemma_p_str_body(d.self_hash@, tail_tags(d));

    lemma_p_record_tail2_of(d, fuel);
}

#[verifier::rlimit(80)]
proof fn lemma_p_record_tail2_of(d: DeedEvent, fuel: nat)
    requires
        fuel >= 2 * line_text(d).len(),
    ensures
        p_record_tail2(
            tail_tags(d),
            fuel,
            d.actor_id@,
            value_view(d.context_json),
            category_name(d.category),
            strs_views(d.ethics_flags@),
            d.event_id@,
            d.life_harm_flag,
            d.prev_hash@,
            d.self_hash@,
        ) == Some(record_view(d)),
{
    lemma_tail_tags_shape(d);
    lemma_p_lit(",\"tags\":"@, str_list_text(d.tags@) + tail_tgt(d));
    lemma_str_list_len(d.tags@);
    assert(str_list_text(d.tags@).len() <= line_text(d).len()) by {
        lemma_line_is_tails(d);
    }
    lemma_p_slist(d.tags@, tail_tgt(d), fuel);

    lemma_tail_tgt_shape(d);
    lemma_p_lit(",\"target_ids\":"@, str_list_text(d.target_ids@) + tail_ts(d));
    lemma_str_list_len(d.target_ids@);
    assert(str_list_text(d.target_ids@).len() <= line_text(d).len()) by {
        lemma_line_is_tails(d);
    }
    lemma_p_slist(d.target_ids@, tail_ts(d), fuel);

    lemma_tail_ts_shape(d);
    lemma_p_lit(",\"timestamp\":"@, int_text(d.timestamp as int) + "}"@);
    assert(!is_digit('}')) by {
        reveal_strlit("}");
    }
    assert("}"@.len() == 0 || !is_digit("}"@[0])) by {
        reveal_strlit("}");
    }
    lemma_p_int(d.timestamp as int, "}"@);

    assert(record_view(d) =~= RecordView {
        actor_id: d.actor_id@,
        context: value_view(d.context_json),
        deed_type: category_name(d.category),
        ethics_flags: strs_views(d.ethics_flags@),
        event_id: d.event_id@,
        life_harm_flag: d.life_harm_flag,
        prev_hash: d.prev_hash@,
        self_hash: d.self_hash@,
        tags: strs_views(d.tags@),
        target_ids: strs_views(d.target_ids@),
        timestamp: d.timestamp as int,
    });
}


proof fn lemma_view_list_push(vs: Seq<Value>, v: Value)
    ensures
        view_list(vs.push(v)) == view_list(vs).push(value_view(v)),
    decreases vs,
{
    let p = vs.push(v);
    if vs.len() == 0 {
        assert(p[0] == v);
        assert(p.len() == 1);
        assert(p.skip(1) =~= Seq::<Value>::empty());
        assert(view_list(p.skip(1)) == Seq::<VView>::empty());
        assert(view_list(p) == seq![value_view(v)] + view_list(p.skip(1)));
        assert(view_list(vs) == Seq::<VView>::empty());
        assert(view_list(p) =~= view_list(vs).push(value_view(v)));
    } else {
        assert(p[0] == vs[0]);
        assert(p.skip(1) =~= vs.skip(1).push(v));
        lemma_view_list_push(vs.skip(1), v);
        assert(view_list(p) == seq![value_view(p[0])] + view_list(p.skip(1)));
        assert(view_list(p.skip(1)) == view_list(vs.skip(1)).push(value_view(v)));
        assert(view_list(vs) == seq![value_view(vs[0])] + view_list(vs.skip(1)));
        assert(view_list(p) =~= view_list(vs).push(value_view(v)));
    }
}

proof fn lemma_view_pairs_push(ps: Seq<(String, Value)>, p: (String, Value))
    ensures
        view_pairs(ps.push(p)) == view_pairs(ps).push((p.0@, value_view(p.1))),
    decreases ps,
{
    let q = ps.push(p);
    if ps.len() == 0 {
        assert(q[0] == p);
        assert(q.len() == 1);
        assert(q.skip(1) =~= Seq::<(String, Value)>::empty());
        assert(view_pairs(q.skip(1)) == Seq::<(Seq<char>, VView)>::empty());
        assert(view_pairs(q) == seq![(q[0].0@, value_view(q[0].1))] + view_pairs(q.skip(1)));
        assert(view_pairs(ps) == Seq::<(Seq<char>, VView)>::empty());
        assert(view_pairs(q) =~= view_pairs(ps).push((p.0@, value_view(p.1))));
    } else {
        assert(q[0] == ps[0]);
        assert(q.skip(1) =~= ps.skip(1).push(p));
        lemma_view_pairs_push(ps.skip(1), p);
        assert(view_pairs(q) == seq![(q[0].0@, value_view(q[0].1))] + view_pairs(q.skip(1)));
        assert(view_pairs(q.skip(1)) == view_pairs(ps.skip(1)).push((p.0@, value_view(p.1))));
        assert(view_pairs(ps) == seq![(ps[0].0@, value_view(ps[0].1))] + view_pairs(
            ps.skip(1),
        ));
        assert(view_pairs(q) =~= view_pairs(ps).push((p.0@, value_view(p.1))));
    }
}

proof fn lemma_strs_views_push(l: Seq<String>, x: String)
    ensures
        strs_views(l.push(x)) == strs_views(l).push(x@),
    decreases l,
{
    let p = l.push(x);
    if l.len() == 0 {
        assert(p[0] == x);
        assert(p.len() == 1);
        assert(p.skip(1) =~= Seq::<String>::empty());
        assert(strs_views(p.skip(1)) == Seq::<Seq<char>>::empty());
        assert(strs_views(p) == seq![x@] + strs_views(p.skip(1)));
        assert(strs_views(l) == Seq::<Seq<char>>::empty());
        assert(strs_views(p) =~= strs_views(l).push(x@));
    } else {
        assert(p[0] == l[0]);
        assert(p.skip(1) =~= l.skip(1).push(x));
        lemma_strs_views_push(l.skip(1), x);
        assert(strs_views(p) == seq![p[0]@] + strs_views(p.skip(1)));
        assert(strs_views(p.skip(1)) == strs_views(l.skip(1)).push(x@));
        assert(strs_views(l) == seq![l[0]@] + strs_views(l.skip(1)));
        assert(strs_views(p) =~= strs_views(l).push(x@));
    }
}

/// Consumes the literal at `pos` if it is there.
fn e_lit(s: &str, len: usize, pos: usize, lit: &str) -> (r: Option<usize>)
    requires
        len == s@.len(),
        pos <= len,
    ensures
        match r {
            Some(p2) => pos <= p2 <= len && p_lit(s@.skip(pos as int), lit@) == Some(
                s@.skip(p2 as int),
            ),
            None => p_lit(s@.skip(pos as int), lit@) is None,
        },
{
    let llen = lit.unicode_len();
    if llen > len - pos {
        proof {
            assert(s@.skip(pos as int).len() < lit@.len());
        }
        return None;
    }
    let mut j: usize = 0;
    while j < llen
        invariant
            j <= llen,
            len == s@.len(),
            pos <= len,
            llen == lit@.len(),
            llen <= len - pos,
            forall|k: int| 0 <= k < j ==> s@[pos + k] == lit@[k],
        decreases llen - j,
    {
        if s.get_char(pos + j) != lit.get_char(j) {
            proof {
                assert(s@.skip(pos as int).take(llen as int)[j as int] == s@[pos + j]);
            }
            return None;
        }
        j = j + 1;
    }
    proof {
        assert(s@.skip(pos as int).take(llen as int) =~= lit@);
        assert(s@.skip(pos as int).skip(llen as int) =~= s@.skip(pos + llen));
    }
    Some(pos + llen)
}

fn hex_val_exec(c: char) -> (r: u32)
    ensures
        r == hex_val(c),
        r <= 16,
{
    let n = c as u32;
    if 48 <= n && n <= 57 {
        proof {
            lemma_char_inj(c, ((n) as u8) as char);
        }
        n - 48
    } else if 97 <= n && n <= 102 {
        proof {
            lemma_char_inj(c, ((n) as u8) as char);
        }
        n - 87
    } else {
        proof {
            assert(hex_val(c) == 16) by {
                assert(c != '0' && c != '1' && c != '2' && c != '3' && c != '4' && c != '5' && c
                    != '6' && c != '7' && c != '8' && c != '9' && c != 'a' && c != 'b' && c
                    != 'c' && c != 'd' && c != 'e' && c != 'f');
            }
        }
        16
    }
}

/// Reads a string body at `pos` (after the opening quote), undoing the
/// canonical escapes, and returns it with the position after the closing
/// quote.
fn e_str_body(s: &str, len: usize, pos: usize) -> (r: Option<(String, usize)>)
    requires
        len == s@.len(),
        pos <= len,
    ensures
        match r {
            Some((v, p2)) => pos < p2 <= len && p_str_body(s@.skip(pos as int)) == Some(
                (v@, s@.skip(p2 as int)),
            ),
            None => p_str_body(s@.skip(pos as int)) is None,
        },
{
    let mut out = String::new();
    let mut i: usize = pos;
    while i < len
        invariant
            len == s@.len(),
            pos <= i <= len,
            p_str_body(s@.skip(pos as int)) == (match p_str_body(s@.skip(i as int)) {
                Some((v, r)) => Some((out@ + v, r)),
                None => None::<(Seq<char>, Seq<char>)>,
            }),
        decreases len - i,
    {
        let ghost rem = s@.skip(i as int);
        proof {
            assert(rem[0] == s@[i as int]);
            assert(rem.skip(1) =~= s@.skip(i + 1));
        }
        let c = s.get_char(i);
        if c == '"' {
            proof {
                assert(p_str_body(rem) == Some((Seq::<char>::empty(), s@.skip(i + 1))));
                assert(out@ + Seq::<char>::empty() =~= out@);
            }
            return Some((out, i + 1));
        } else if c == '\\' {
            if i + 1 >= len {
                proof {
                    assert(rem.len() == 1);
                    assert(p_str_body(rem) is None);
                }
                return None;
            }
            proof {
                assert(rem[1] == s@[i + 1]);
                assert(rem.skip(2) =~= s@.skip(i + 2));
            }
            let c2 = s.get_char(i + 1);
            if c2 == '"' {
                out.push('"');
                i = i + 2;
            } else if c2 == '\\' {
                out.push('\\');
                i = i + 2;
            } else if c2 == 'u' {
                if len - i < 6 {
                    proof {
                        assert(rem.len() < 6);
                        assert(p_str_body(rem) is None);
                    }
                    return None;
                }
                proof {
                    assert(rem[2] == s@[i + 2]);
                    assert(rem[3] == s@[i + 3]);
                    assert(rem[4] == s@[i + 4]);
                    assert(rem[5] == s@[i + 5]);
                    assert(rem.skip(6) =~= s@.skip(i + 6));
                }
                let c3 = s.get_char(i + 2);
                let c4 = s.get_char(i + 3);
                let c5 = s.get_char(i + 4);
                let c6 = s.get_char(i + 5);
                if c3 != '0' || c4 != '0' || !(c5 == '0' || c5 == '1') || hex_val_exec(c6) >= 16 {
                    return None;
                }
                let code: u32 = hex_val_exec(c5) * 16 + hex_val_exec(c6);
                proof {
                    assert(code < 32);
                    lemma_char_round(code);
                }
                let ch: char = (code as u8) as char;
                proof {
                    lemma_char_inj(ch, (code as char));
                }
                out.push(ch);
                i = i + 6;
            } else {
                proof {
                    assert(p_str_body(rem) is None);
                }
                return None;
            }
        } else {
            let code = c as u32;
            if code < 32 {
                proof {
                    assert(p_str_body(rem) is None);
                }
                return None;
            }
            out.push(c);
            i = i + 1;
        }
    }
    proof {
        assert(s@.skip(i as int).len() == 0);
        assert(p_str_body(s@.skip(i as int)) is None);
    }
    None
}


pub open spec fn pow10(k: nat) -> int
    decreases k,
{
    if k == 0 {
        1
    } else {
        10 * pow10((k - 1) as nat)
    }
}

proof fn lemma_digits_val_bounds(d: Seq<char>)
    requires
        forall|i: int| 0 <= i < d.len() ==> is_digit(#[trigger] d[i]),
    ensures
        0 <= digits_val(d) < pow10(d.len() as nat),
        d.len() >= 1 && d[0] != '0' ==> digits_val(d) >= pow10((d.len() - 1) as nat),
    decreases d.len(),
{
    if d.len() == 0 {
    } else {
        let e = d.drop_last();
        assert(forall|i: int| 0 <= i < e.len() ==> is_digit(#[trigger] e[i])) by {
            assert(forall|i: int| 0 <= i < e.len() ==> e[i] == d[i]);
        }
        lemma_digits_val_bounds(e);
        let c = d.last();
        assert(is_digit(c));
        assert(0 <= digit_val(c) <= 9);
        if d.len() == 1 {
            if d[0] != '0' {
                assert(c == d[0]);
                assert(digit_val(c) >= 1) by {
                    lemma_char_inj(c, ((c as u32) as u8) as char);
                }
            }
        } else {
            assert(e[0] == d[0]);
        }
    }
}

/// digits_val only grows as more digits are read.
proof fn lemma_digits_val_prefix(d: Seq<char>, i: int)
    requires
        forall|k: int| 0 <= k < d.len() ==> is_digit(#[trigger] d[k]),
        0 <= i <= d.len(),
    ensures
        digits_val(d.take(i)) <= digits_val(d),
    decreases d.len() - i,
{
    if i == d.len() {
        assert(d.take(i) =~= d);
    } else {
        lemma_digits_val_prefix(d, i + 1);
        let t1 = d.take(i + 1);
        assert(t1.drop_last() =~= d.take(i));
        assert(t1.last() == d[i]);
        assert(forall|k: int| 0 <= k < d.take(i).len() ==> is_digit(#[trigger] d.take(i)[k]));
        lemma_digits_val_bounds(d.take(i));
        assert(digits_val(t1) == digits_val(d.take(i)) * 10 + digit_val(d[i]));
        assert(0 <= digit_val(d[i]) <= 9);
    }
}

fn is_digit_exec(c: char) -> (r: bool)
    ensures
        r == is_digit(c),
{
    let n = c as u32;
    48 <= n && n <= 57
}

/// Reads a canonical integer at `pos`. Fails where there is none, and
/// where one is there but does not fit a 64-bit signed integer.
#[verifier::rlimit(60)]
fn e_int(s: &str, len: usize, pos: usize) -> (r: Option<(i64, usize)>)
    requires
        len == s@.len(),
        pos <= len,
    ensures
        match r {
            Some((v, p2)) => pos <= p2 <= len && p_int(s@.skip(pos as int)) == Some(
                (v as int, s@.skip(p2 as int)),
            ),
            None => match p_int(s@.skip(pos as int)) {
                None => true,
                Some((n, _)) => !(i64::MIN <= n <= i64::MAX),
            },
        },
{
    let ghost rem = s@.skip(pos as int);
    let neg: bool = pos < len && s.get_char(pos) == '-';
    let dpos: usize = if neg {
        pos + 1
    } else {
        pos
    };
    proof {
        if pos < len {
            assert(rem[0] == s@[pos as int]);
            assert(s@.skip(pos as int).skip(1) =~= s@.skip(pos + 1));
        }
    }
    // find the end of the digit run
    let mut idx: usize = dpos;
    while idx < len && is_digit_exec(s.get_char(idx))
        invariant
            len == s@.len(),
            dpos <= idx <= len,
            forall|k: int| dpos <= k < idx ==> is_digit(#[trigger] s@[k]),
        decreases len - idx,
    {
        idx = idx + 1;
    }
    let ghost dseq = s@.subrange(dpos as int, idx as int);
    proof {
        assert(forall|k: int| 0 <= k < dseq.len() ==> is_digit(#[trigger] dseq[k]));
        assert(s@.skip(dpos as int) =~= dseq + s@.skip(idx as int));
        if idx < len {
            assert(s@.skip(idx as int)[0] == s@[idx as int]);
        }
        lemma_p_digits_append(dseq, s@.skip(idx as int));
    }
    if idx == dpos {
        proof {
            assert(dseq.len() == 0);
        }
        return None;
    }
    if idx - dpos > 1 && s.get_char(dpos) == '0' {
        proof {
            assert(dseq[0] == s@[dpos as int]);
        }
        return None;
    }
    proof {
        assert(dseq[0] == s@[dpos as int]);
        assert(dseq[0] != '0' || dseq.len() == 1);
        lemma_digits_val_bounds(dseq);
    }
    if idx - dpos >= 20 {
        // at least 10^19, outside the 64-bit range
        proof {
            assert(pow10(19) == 10000000000000000000) by {
                assert(pow10(0) == 1);
                assert(pow10(1) == 10);
                assert(pow10(2) == 100);
                assert(pow10(3) == 1000);
                assert(pow10(4) == 10000);
                assert(pow10(5) == 100000);
                assert(pow10(6) == 1000000);
                assert(pow10(7) == 10000000);
                assert(pow10(8) == 100000000);
                assert(pow10(9) == 1000000000);
                assert(pow10(10) == 10000000000);
                assert(pow10(11) == 100000000000);
                assert(pow10(12) == 1000000000000);
                assert(pow10(13) == 10000000000000);
                assert(pow10(14) == 100000000000000);
                assert(pow10(15) == 1000000000000000);
                assert(pow10(16) == 10000000000000000);
                assert(pow10(17) == 100000000000000000);
                assert(pow10(18) == 1000000000000000000);
            }
            assert(dseq[0] != '0');
            assert(digits_val(dseq) >= pow10((dseq.len() - 1) as nat));
            lemma_pow10_mono(19, (dseq.len() - 1) as nat);
        }
        return None;
    }
    // at most 19 digits: the value fits unsigned 128-bit exactly
    let mut acc: u128 = 0;
    let mut k: usize = dpos;
    while k < idx
        invariant
            len == s@.len(),
            dpos <= k <= idx <= len,
            dseq == s@.subrange(dpos as int, idx as int),
            forall|j: int| dpos <= j < idx ==> is_digit(#[trigger] s@[j]),
            idx - dpos <= 19,
            acc == digits_val(dseq.take(k - dpos)),
            acc < 0x8000_0000_0000_0000_0000_0000_0000_0000u128 / 16,
        decreases idx - k,
    {
        let c = s.get_char(k);
        let d: u128 = (c as u32 as u128) - 48;
        proof {
            assert(dseq[k - dpos] == s@[k as int]);
            assert(is_digit(c));
            assert(d == digit_val(c));
            assert(dseq.take(k - dpos + 1).drop_last() =~= dseq.take(k - dpos));
            assert(dseq.take(k - dpos + 1).last() == c);
            assert(forall|j: int|
                0 <= j < dseq.take(k - dpos + 1).len() ==> is_digit(
                    #[trigger] dseq.take(k - dpos + 1)[j],
                ));
            lemma_digits_val_bounds(dseq.take(k - dpos + 1));
            lemma_pow10_le(dseq.take(k - dpos + 1).len() as nat);
        }
        acc = acc * 10 + d;
        k = k + 1;
    }
    proof {
        assert(dseq.take(idx - dpos) =~= dseq);
        assert(acc == digits_val(dseq));
        assert(dseq.len() == 1 || dseq[0] != '0');
    }
    if neg {
        proof {
            assert(rem[0] == '-');
            assert(rem.skip(1) =~= s@.skip(dpos as int));
        }
        if acc == 0 {
            proof {
                assert(p_int(rem) is None);
            }
            return None;
        }
        if acc > 9223372036854775808u128 {
            proof {
                assert(p_int(rem) == Some((-digits_val(dseq), s@.skip(idx as int))));
            }
            return None;
        }
        let v: i64 = if acc == 9223372036854775808u128 {
            i64::MIN
        } else {
            -(acc as i64)
        };
        proof {
            assert(v as int == -(acc as int));
            assert(p_int(rem) == Some((-digits_val(dseq), s@.skip(idx as int))));
        }
        Some((v, idx))
    } else {
        proof {
            if rem.len() > 0 {
                assert(rem[0] == s@[pos as int]);
                assert(rem[0] == dseq[0]);
                assert(is_digit(rem[0]));
                assert(rem[0] != '-');
            }
            assert(rem =~= s@.skip(dpos as int));
            assert(p_int(rem) == Some((digits_val(dseq), s@.skip(idx as int))));
        }
        if acc > 9223372036854775807u128 {
            return None;
        }
        Some((acc as i64, idx))
    }
}

proof fn lemma_pow10_mono(a: nat, b: nat)
    requires
        a <= b,
    ensures
        pow10(a) <= pow10(b),
    decreases b,
{
    if a < b {
        lemma_pow10_mono(a, (b - 1) as nat);
        lemma_pow10_pos((b - 1) as nat);
    }
}

proof fn lemma_pow10_pos(a: nat)
    ensures
        pow10(a) >= 1,
    decreases a,
{
    if a > 0 {
        lemma_pow10_pos((a - 1) as nat);
    }
}

/// pow10 of at most nineteen digits stays well under the accumulator cap.
proof fn lemma_pow10_le(k: nat)
    requires
        k <= 19,
    ensures
        pow10(k) <= 10000000000000000000,
    decreases k,
{
    assert(pow10(19) == 10000000000000000000) by {
        assert(pow10(0) == 1);
        assert(pow10(1) == 10);
        assert(pow10(2) == 100);
        assert(pow10(3) == 1000);
        assert(pow10(4) == 10000);
        assert(pow10(5) == 100000);
        assert(pow10(6) == 1000000);
        assert(pow10(7) == 10000000);
        assert(pow10(8) == 100000000);
        assert(pow10(9) == 1000000000);
        assert(pow10(10) == 10000000000);
        assert(pow10(11) == 100000000000);
        assert(pow10(12) == 1000000000000);
        assert(pow10(13) == 10000000000000);
        assert(pow10(14) == 100000000000000);
        assert(pow10(15) == 1000000000000000);
        assert(pow10(16) == 10000000000000000);
        assert(pow10(17) == 100000000000000000);
        assert(pow10(18) == 1000000000000000000);
    }
    lemma_pow10_mono(k, 19);
}


fn e_bool(s: &str, len: usize, pos: usize) -> (r: Option<(bool, usize)>)
    requires
        len == s@.len(),
        pos <= len,
    ensures
        match r {
            Some((b, p2)) => pos <= p2 <= len && p_bool(s@.skip(pos as int)) == Some(
                (b, s@.skip(p2 as int)),
            ),
            None => p_bool(s@.skip(pos as int)) is None,
        },
{
    proof {
        reveal_strlit("true");
        reveal_strlit("false");
        assert("true"@ =~= seq!['t', 'r', 'u', 'e']);
        assert("false"@ =~= seq!['f', 'a', 'l', 's', 'e']);
    }
    match e_lit(s, len, pos, "true") {
        Some(p2) => Some((true, p2)),
        None => match e_lit(s, len, pos, "false") {
            Some(p2) => Some((false, p2)),
            None => None,
        },
    }
}

/// Reads the items of a non-empty string list at `pos`, consuming the
/// closing bracket.
fn e_slist_items(s: &str, len: usize, pos: usize) -> (r: Option<(Vec<String>, usize)>)
    requires
        len == s@.len(),
        pos <= len,
    ensures
        match r {
            Some((vs, p2)) => pos < p2 <= len && vs@.len() >= 1 && forall|fuel: nat|
                fuel >= len - pos + 1 ==> #[trigger] p_slist_items(s@.skip(pos as int), fuel)
                    == Some((strs_views(vs@), s@.skip(p2 as int))),
            None => forall|fuel: nat| #[trigger] p_slist_items(s@.skip(pos as int), fuel) is None,
        },
    decreases len - pos,
{
    let ghost rem = s@.skip(pos as int);
    if pos >= len {
        proof {
            assert(rem.len() == 0);
            assert forall|fuel: nat| #[trigger] p_slist_items(rem, fuel) is None by {}
        }
        return None;
    }
    proof {
        assert(rem[0] == s@[pos as int]);
        assert(rem.skip(1) =~= s@.skip(pos + 1));
    }
    if s.get_char(pos) != '"' {
        proof {
            assert forall|fuel: nat| #[trigger] p_slist_items(rem, fuel) is None by {}
        }
        return None;
    }
    match e_str_body(s, len, pos + 1) {
        Some((item, p2)) => {
            if p2 >= len {
                proof {
                    assert(s@.skip(p2 as int).len() == 0);
                    assert forall|fuel: nat| #[trigger] p_slist_items(rem, fuel) is None by {}
                }
                return None;
            }
            proof {
                assert(s@.skip(p2 as int)[0] == s@[p2 as int]);
                assert(s@.skip(p2 as int).skip(1) =~= s@.skip(p2 + 1));
            }
            let c = s.get_char(p2);
            if c == ']' {
                let mut vs: Vec<String> = Vec::new();
                vs.push(item);
                proof {
                    assert(vs@[0] == item);
                    assert(vs@.skip(1) =~= Seq::<String>::empty());
                    assert(strs_views(vs@.skip(1)) == Seq::<Seq<char>>::empty());
                    assert(strs_views(vs@) == seq![vs@[0]@] + strs_views(vs@.skip(1)));
                    assert(strs_views(vs@) =~= seq![item@]);
                    assert forall|fuel: nat| fuel >= len - pos + 1 implies #[trigger]
                    p_slist_items(rem, fuel) == Some(
                        (strs_views(vs@), s@.skip(p2 + 1)),
                    ) by {}
                }
                return Some((vs, p2 + 1));
            }
            if c != ',' {
                proof {
                    assert forall|fuel: nat| #[trigger] p_slist_items(rem, fuel) is None by {}
                }
                return None;
            }
            match e_slist_items(s, len, p2 + 1) {
                Some((rest_vec, p3)) => {
                    let mut vs = rest_vec;
                    vs.insert(0, item);
                    proof {
                        assert(vs@[0] == item);
                        assert(vs@.skip(1) =~= rest_vec@);
                        assert(strs_views(vs@) == seq![vs@[0]@] + strs_views(vs@.skip(1)));
                        assert forall|fuel: nat| fuel >= len - pos + 1 implies #[trigger]
                        p_slist_items(rem, fuel) == Some(
                            (strs_views(vs@), s@.skip(p3 as int)),
                        ) by {
                            assert(fuel - 1 >= len - (p2 + 1) + 1);
                            assert(p_slist_items(s@.skip(p2 + 1), (fuel - 1) as nat) == Some(
                                (strs_views(rest_vec@), s@.skip(p3 as int)),
                            ));
                            assert(strs_views(vs@) =~= seq![item@] + strs_views(rest_vec@));
                        }
                    }
                    Some((vs, p3))
                },
                None => {
                    proof {
                        assert forall|fuel: nat| #[trigger] p_slist_items(rem, fuel)
                            is None by {
                            assert(p_slist_items(s@.skip(p2 + 1), (fuel - 1) as nat) is None);
                        }
                    }
                    None
                },
            }
        },
        None => {
            proof {
                assert forall|fuel: nat| #[trigger] p_slist_items(rem, fuel) is None by {}
            }
            None
        },
    }
}

/// Reads a whole string list at `pos`.
fn e_slist(s: &str, len: usize, pos: usize) -> (r: Option<(Vec<String>, usize)>)
    requires
        len == s@.len(),
        pos <= len,
    ensures
        match r {
            Some((vs, p2)) => pos < p2 <= len && forall|fuel: nat|
                fuel >= len - pos + 1 ==> p_slist(s@.skip(pos as int), fuel) == Some(
                    (strs_views(vs@), s@.skip(p2 as int)),
                ),
            None => forall|fuel: nat| p_slist(#[trigger] s@.skip(pos as int), fuel) is None,
        },
{
    let ghost rem = s@.skip(pos as int);
    if pos >= len {
        return None;
    }
    proof {
        assert(rem[0] == s@[pos as int]);
    }
    if s.get_char(pos) != '[' {
        return None;
    }
    if pos + 1 < len && s.get_char(pos + 1) == ']' {
        proof {
            assert(rem[1] == s@[pos + 1]);
            assert(rem.skip(2) =~= s@.skip(pos + 2));
            assert(strs_views(Seq::<String>::empty()) == Seq::<Seq<char>>::empty());
        }
        let vs: Vec<String> = Vec::new();
        proof {
            assert(strs_views(vs@) =~= Seq::<Seq<char>>::empty());
        }
        return Some((vs, pos + 2));
    }
    proof {
        if rem.len() >= 2 {
            assert(rem[1] == s@[pos + 1]);
        }
        assert(rem.skip(1) =~= s@.skip(pos + 1));
    }
    match e_slist_items(s, len, pos + 1) {
        Some((vs, p2)) => {
            proof {
                assert forall|fuel: nat| fuel >= len - pos + 1 implies p_slist(
                    s@.skip(pos as int),
                    fuel,
                ) == Some((strs_views(vs@), s@.skip(p2 as int))) by {
                    assert(fuel >= len - (pos + 1) + 1);
                    assert(p_slist_items(s@.skip(pos + 1), fuel) == Some(
                        (strs_views(vs@), s@.skip(p2 as int)),
                    ));
                }
            }
            Some((vs, p2))
        },
        None => None,
    }
}



/// A view every one of whose integers fits a 64-bit signed value, so a
/// reader can materialize it.
pub open spec fn vv_readable(v: VView) -> bool
    decreases v,
{
    match v {
        VView::IntV(n) => i64::MIN <= n <= i64::MAX,
        VView::Arr(vs) => readable_list(vs),
        VView::Obj(ps) => readable_pairs(ps),
        _ => true,
    }
}

pub open spec fn readable_list(vs: Seq<VView>) -> bool
    decreases vs,
{
    if vs.len() == 0 {
        true
    } else {
        vv_readable(vs[0]) && readable_list(vs.skip(1))
    }
}

pub open spec fn readable_pairs(ps: Seq<(Seq<char>, VView)>) -> bool
    decreases ps,
{
    if ps.len() == 0 {
        true
    } else {
        vv_readable(ps[0].1) && readable_pairs(ps.skip(1))
    }
}

/// The digit run and the rest partition the input.
proof fn lemma_p_digits_len(s: Seq<char>)
    ensures
        p_digits(s).0.len() + p_digits(s).1.len() == s.len(),
    decreases s.len(),
{
    if s.len() > 0 && is_digit(s[0]) {
        lemma_p_digits_len(s.skip(1));
    }
}

/// Reads one value at `pos`. Fails where no canonical value is there and
/// where one is there but holds an integer outside the 64-bit range.
#[verifier::rlimit(100)]
fn e_value(s: &str, len: usize, pos: usize) -> (r: Option<(Value, usize)>)
    requires
        len == s@.len(),
        pos <= len,
    ensures
        match r {
            Some((v, p2)) => pos < p2 <= len && forall|fuel: nat|
                fuel >= 2 * (len - pos) + 1 ==> #[trigger] p_vview(s@.skip(pos as int), fuel)
                    == Some((value_view(v), s@.skip(p2 as int))),
            None => forall|fuel: nat|
                fuel >= 2 * (len - pos) + 1 ==> match #[trigger] p_vview(
                    s@.skip(pos as int),
                    fuel,
                ) {
                    None => true,
                    Some((v, _)) => !vv_readable(v),
                },
        },
    decreases len - pos, 0int,
{
    let ghost rem = s@.skip(pos as int);
    if pos >= len {
        proof {
            assert(rem.len() == 0);
        }
        return None;
    }
    proof {
        assert(rem[0] == s@[pos as int]);
        assert(rem.skip(1) =~= s@.skip(pos + 1));
        reveal_strlit("null");
        reveal_strlit("true");
        reveal_strlit("false");
        assert("null"@ =~= seq!['n', 'u', 'l', 'l']);
        assert("true"@ =~= seq!['t', 'r', 'u', 'e']);
        assert("false"@ =~= seq!['f', 'a', 'l', 's', 'e']);
    }
    let c = s.get_char(pos);
    if c == 'n' {
        match e_lit(s, len, pos, "null") {
            Some(p2) => Some((Value::Null, p2)),
            None => None,
        }
    } else if c == 't' {
        match e_lit(s, len, pos, "true") {
            Some(p2) => Some((Value::Bool(true), p2)),
            None => None,
        }
    } else if c == 'f' {
        match e_lit(s, len, pos, "false") {
            Some(p2) => Some((Value::Bool(false), p2)),
            None => None,
        }
    } else if c == '"' {
        match e_str_body(s, len, pos + 1) {
            Some((v, p2)) => Some((Value::Str(v), p2)),
            None => None,
        }
    } else if c == '[' {
        if pos + 1 < len && s.get_char(pos + 1) == ']' {
            proof {
                assert(rem[1] == s@[pos + 1]);
                assert(rem.skip(2) =~= s@.skip(pos + 2));
            }
            let v = Value::Arr(Vec::new());
            proof {
                assert(value_view(v) =~= VView::Arr(Seq::<VView>::empty()));
            }
            Some((v, pos + 2))
        } else {
            proof {
                if rem.len() >= 2 {
                    assert(rem[1] == s@[pos + 1]);
                }
            }
            match e_arr_items(s, len, pos + 1) {
                Some((vs, p2)) => {
                    let v = Value::Arr(vs);
                    proof {
                        assert forall|fuel: nat| fuel >= 2 * (len - pos) + 1 implies #[trigger]
                        p_vview(rem, fuel) == Some(
                            (value_view(v), s@.skip(p2 as int)),
                        ) by {
                            assert(fuel - 1 >= 2 * (len - (pos + 1)) + 2);
                            assert(p_vv_items(s@.skip(pos + 1), (fuel - 1) as nat) == Some(
                                (view_list(vs@), s@.skip(p2 as int)),
                            ));
                        }
                    }
                    Some((v, p2))
                },
                None => {
                    proof {
                        assert forall|fuel: nat| fuel >= 2 * (len - pos) + 1 implies match
                        #[trigger] p_vview(rem, fuel) {
                            None => true,
                            Some((v, _)) => !vv_readable(v),
                        } by {
                            assert(fuel - 1 >= 2 * (len - (pos + 1)) + 2);
                            assert(match p_vv_items(s@.skip(pos + 1), (fuel - 1) as nat) {
                                None => true,
                                Some((vs, _)) => !readable_list(vs),
                            });
                        }
                    }
                    None
                },
            }
        }
    } else if c == '{' {
        if pos + 1 < len && s.get_char(pos + 1) == '}' {
            proof {
                assert(rem[1] == s@[pos + 1]);
                assert(rem.skip(2) =~= s@.skip(pos + 2));
            }
            let v = Value::Obj(Vec::new());
            proof {
                assert(value_view(v) =~= VView::Obj(Seq::<(Seq<char>, VView)>::empty()));
            }
            Some((v, pos + 2))
        } else {
            proof {
                if rem.len() >= 2 {
                    assert(rem[1] == s@[pos + 1]);
                }
            }
            match e_obj_pairs(s, len, pos + 1) {
                Some((ps, p2)) => {
                    let v = Value::Obj(ps);
                    proof {
                        assert forall|fuel: nat| fuel >= 2 * (len - pos) + 1 implies #[trigger]
                        p_vview(rem, fuel) == Some(
                            (value_view(v), s@.skip(p2 as int)),
                        ) by {
                            assert(fuel - 1 >= 2 * (len - (pos + 1)) + 2);
                            assert(p_vv_pairs(s@.skip(pos + 1), (fuel - 1) as nat) == Some(
                                (view_pairs(ps@), s@.skip(p2 as int)),
                            ));
                        }
                    }
                    Some((v, p2))
                },
                None => {
                    proof {
                        assert forall|fuel: nat| fuel >= 2 * (len - pos) + 1 implies match
                        #[trigger] p_vview(rem, fuel) {
                            None => true,
                            Some((v, _)) => !vv_readable(v),
                        } by {
                            assert(fuel - 1 >= 2 * (len - (pos + 1)) + 2);
                            assert(match p_vv_pairs(s@.skip(pos + 1), (fuel - 1) as nat) {
                                None => true,
                                Some((ps, _)) => !readable_pairs(ps),
                            });
                        }
                    }
                    None
                },
            }
        }
    } else {
        match e_int(s, len, pos) {
            Some((n, p2)) => {
                proof {
                    assert(p2 > pos) by {
                        if p2 == pos {
                            assert(s@.skip(p2 as int) == rem);
                            if rem.len() > 0 && rem[0] == '-' {
                                lemma_p_digits_len(rem.skip(1));
                            } else {
                                lemma_p_digits_len(rem);
                            }
                        }
                    }
                }
                Some((Value::Int(n), p2))
            },
            None => None,
        }
    }
}

/// Reads the items of a non-empty array at `pos`, consuming the closing
/// bracket.
#[verifier::rlimit(100)]
fn e_arr_items(s: &str, len: usize, pos: usize) -> (r: Option<(Vec<Value>, usize)>)
    requires
        len == s@.len(),
        pos <= len,
    ensures
        match r {
            Some((vs, p2)) => pos < p2 <= len && forall|fuel: nat|
                fuel >= 2 * (len - pos) + 2 ==> #[trigger] p_vv_items(s@.skip(pos as int), fuel)
                    == Some((view_list(vs@), s@.skip(p2 as int))),
            None => forall|fuel: nat|
                fuel >= 2 * (len - pos) + 2 ==> match #[trigger] p_vv_items(
                    s@.skip(pos as int),
                    fuel,
                ) {
                    None => true,
                    Some((vs, _)) => !readable_list(vs),
                },
        },
    decreases len - pos, 1int,
{
    let ghost rem = s@.skip(pos as int);
    match e_value(s, len, pos) {
        Some((v, p2)) => {
            if p2 >= len {
                proof {
                    assert(s@.skip(p2 as int).len() == 0);
                    assert forall|fuel: nat| fuel >= 2 * (len - pos) + 2 implies match
                    #[trigger] p_vv_items(rem, fuel) {
                        None => true,
                        Some((vs, _)) => !readable_list(vs),
                    } by {
                        assert(fuel - 1 >= 2 * (len - pos) + 1);
                        assert(p_vview(rem, (fuel - 1) as nat) == Some(
                            (value_view(v), s@.skip(p2 as int)),
                        ));
                    }
                }
                return None;
            }
            proof {
                assert(s@.skip(p2 as int)[0] == s@[p2 as int]);
                assert(s@.skip(p2 as int).skip(1) =~= s@.skip(p2 + 1));
            }
            let c = s.get_char(p2);
            if c == ']' {
                let mut vs: Vec<Value> = Vec::new();
                vs.push(v);
                proof {
                    assert(vs@[0] == v);
                    assert(vs@.skip(1) =~= Seq::<Value>::empty());
                    assert(view_list(vs@.skip(1)) == Seq::<VView>::empty());
                    assert(view_list(vs@) == seq![value_view(vs@[0])] + view_list(vs@.skip(1)));
                    assert(view_list(vs@) =~= seq![value_view(v)]);
                    assert forall|fuel: nat| fuel >= 2 * (len - pos) + 2 implies #[trigger]
                    p_vv_items(rem, fuel) == Some(
                        (view_list(vs@), s@.skip(p2 + 1)),
                    ) by {
                        assert(fuel - 1 >= 2 * (len - pos) + 1);
                        assert(p_vview(rem, (fuel - 1) as nat) == Some(
                            (value_view(v), s@.skip(p2 as int)),
                        ));
                    }
                }
                return Some((vs, p2 + 1));
            }
            if c != ',' {
                proof {
                    assert forall|fuel: nat| fuel >= 2 * (len - pos) + 2 implies match
                    #[trigger] p_vv_items(rem, fuel) {
                        None => true,
                        Some((vs, _)) => !readable_list(vs),
                    } by {
                        assert(fuel - 1 >= 2 * (len - pos) + 1);
                        assert(p_vview(rem, (fuel - 1) as nat) == Some(
                            (value_view(v), s@.skip(p2 as int)),
                        ));
                    }
                }
                return None;
            }
            match e_arr_items(s, len, p2 + 1) {
                Some((rest_vec, p3)) => {
                    let mut vs = rest_vec;
                    vs.insert(0, v);
                    proof {
                        assert(vs@[0] == v);
                        assert(vs@.skip(1) =~= rest_vec@);
                        assert(view_list(vs@) == seq![value_view(vs@[0])] + view_list(
                            vs@.skip(1),
                        ));
                        assert forall|fuel: nat| fuel >= 2 * (len - pos) + 2 implies #[trigger]
                        p_vv_items(rem, fuel) == Some(
                            (view_list(vs@), s@.skip(p3 as int)),
                        ) by {
                            assert(fuel - 1 >= 2 * (len - pos) + 1);
                            assert(p_vview(rem, (fuel - 1) as nat) == Some(
                                (value_view(v), s@.skip(p2 as int)),
                            ));
                            assert(fuel - 1 >= 2 * (len - (p2 + 1)) + 2);
                            assert(p_vv_items(s@.skip(p2 + 1), (fuel - 1) as nat) == Some(
                                (view_list(rest_vec@), s@.skip(p3 as int)),
                            ));
                            assert(view_list(vs@) =~= seq![value_view(v)] + view_list(
                                rest_vec@,
                            ));
                        }
                    }
                    Some((vs, p3))
                },
                None => {
                    proof {
                        assert forall|fuel: nat| fuel >= 2 * (len - pos) + 2 implies match
                        #[trigger] p_vv_items(rem, fuel) {
                            None => true,
                            Some((vs, _)) => !readable_list(vs),
                        } by {
                            assert(fuel - 1 >= 2 * (len - pos) + 1);
                            assert(p_vview(rem, (fuel - 1) as nat) == Some(
                                (value_view(v), s@.skip(p2 as int)),
                            ));
                            assert(fuel - 1 >= 2 * (len - (p2 + 1)) + 2);
                            assert(match p_vv_items(s@.skip(p2 + 1), (fuel - 1) as nat) {
                                None => true,
                                Some((vs2, _)) => !readable_list(vs2),
                            });
                            match p_vv_items(s@.skip(p2 + 1), (fuel - 1) as nat) {
                                Some((vs2, r2)) => {
                                    assert((seq![value_view(v)] + vs2).skip(1) =~= vs2);
                                    assert(!readable_list(seq![value_view(v)] + vs2));
                                },
                                None => {},
                            }
                        }
                    }
                    None
                },
            }
        },
        None => {
            proof {
                assert forall|fuel: nat| fuel >= 2 * (len - pos) + 2 implies match #[trigger]
                p_vv_items(rem, fuel) {
                    None => true,
                    Some((vs, _)) => !readable_list(vs),
                } by {
                    assert(fuel - 1 >= 2 * (len - pos) + 1);
                    assert(match p_vview(rem, (fuel - 1) as nat) {
                        None => true,
                        Some((v, _)) => !vv_readable(v),
                    });
                    match p_vview(rem, (fuel - 1) as nat) {
                        Some((v0, r)) => {
                            assert(!vv_readable(v0));
                            if r.len() > 0 && r[0] == ',' {
                                match p_vv_items(r.skip(1), (fuel - 1) as nat) {
                                    Some((vs2, r2)) => {
                                        assert((seq![v0] + vs2)[0] == v0);
                                        assert(!readable_list(seq![v0] + vs2));
                                    },
                                    None => {},
                                }
                            } else if r.len() > 0 && r[0] == ']' {
                                assert((seq![v0])[0] == v0);
                                assert((seq![v0]).skip(1) =~= Seq::<VView>::empty());
                                assert(!readable_list(seq![v0]));
                            }
                        },
                        None => {},
                    }
                }
            }
            None
        },
    }
}

/// Reads the pairs of a non-empty object at `pos`, consuming the closing
/// brace.
#[verifier::rlimit(100)]
fn e_obj_pairs(s: &str, len: usize, pos: usize) -> (r: Option<(Vec<(String, Value)>, usize)>)
    requires
        len == s@.len(),
        pos <= len,
    ensures
        match r {
            Some((ps, p2)) => pos < p2 <= len && forall|fuel: nat|
                fuel >= 2 * (len - pos) + 2 ==> #[trigger] p_vv_pairs(s@.skip(pos as int), fuel)
                    == Some((view_pairs(ps@), s@.skip(p2 as int))),
            None => forall|fuel: nat|
                fuel >= 2 * (len - pos) + 2 ==> match #[trigger] p_vv_pairs(
                    s@.skip(pos as int),
                    fuel,
                ) {
                    None => true,
                    Some((ps, _)) => !readable_pairs(ps),
                },
        },
    decreases len - pos, 1int,
{
    let ghost rem = s@.skip(pos as int);
    if pos >= len {
        proof {
            assert(rem.len() == 0);
        }
        return None;
    }
    proof {
        assert(rem[0] == s@[pos as int]);
        assert(rem.skip(1) =~= s@.skip(pos + 1));
    }
    if s.get_char(pos) != '"' {
        return None;
    }
    let (key, kp) = match e_str_body(s, len, pos + 1) {
        Some(x) => x,
        None => {
            return None;
        },
    };
    if kp >= len {
        proof {
            assert(s@.skip(kp as int).len() == 0);
        }
        return None;
    }
    proof {
        assert(s@.skip(kp as int)[0] == s@[kp as int]);
        assert(s@.skip(kp as int).skip(1) =~= s@.skip(kp + 1));
    }
    if s.get_char(kp) != ':' {
        return None;
    }
    match e_value(s, len, kp + 1) {
        Some((v, p2)) => {
            if p2 >= len {
                proof {
                    assert(s@.skip(p2 as int).len() == 0);
                    assert forall|fuel: nat| fuel >= 2 * (len - pos) + 2 implies match
                    #[trigger] p_vv_pairs(rem, fuel) {
                        None => true,
                        Some((ps, _)) => !readable_pairs(ps),
                    } by {
                        assert(fuel - 1 >= 2 * (len - (kp + 1)) + 1);
                        assert(p_vview(s@.skip(kp + 1), (fuel - 1) as nat) == Some(
                            (value_view(v), s@.skip(p2 as int)),
                        ));
                    }
                }
                return None;
            }
            proof {
                assert(s@.skip(p2 as int)[0] == s@[p2 as int]);
                assert(s@.skip(p2 as int).skip(1) =~= s@.skip(p2 + 1));
            }
            let c = s.get_char(p2);
            if c == '}' {
                let mut ps: Vec<(String, Value)> = Vec::new();
                ps.push((key, v));
                proof {
                    assert(ps@[0].0 == key && ps@[0].1 == v);
                    assert(ps@.skip(1) =~= Seq::<(String, Value)>::empty());
                    assert(view_pairs(ps@.skip(1)) == Seq::<(Seq<char>, VView)>::empty());
                    assert(view_pairs(ps@) == seq![(ps@[0].0@, value_view(ps@[0].1))]
                        + view_pairs(ps@.skip(1)));
                    assert(view_pairs(ps@) =~= seq![(key@, value_view(v))]);
                    assert forall|fuel: nat| fuel >= 2 * (len - pos) + 2 implies #[trigger]
                    p_vv_pairs(rem, fuel) == Some(
                        (view_pairs(ps@), s@.skip(p2 + 1)),
                    ) by {
                        assert(fuel - 1 >= 2 * (len - (kp + 1)) + 1);
                        assert(p_vview(s@.skip(kp + 1), (fuel - 1) as nat) == Some(
                            (value_view(v), s@.skip(p2 as int)),
                        ));
                    }
                }
                return Some((ps, p2 + 1));
            }
            if c != ',' {
                proof {
                    assert forall|fuel: nat| fuel >= 2 * (len - pos) + 2 implies match
                    #[trigger] p_vv_pairs(rem, fuel) {
                        None => true,
                        Some((ps, _)) => !readable_pairs(ps),
                    } by {
                        assert(fuel - 1 >= 2 * (len - (kp + 1)) + 1);
                        assert(p_vview(s@.skip(kp + 1), (fuel - 1) as nat) == Some(
                            (value_view(v), s@.skip(p2 as int)),
                        ));
                    }
                }
                return None;
            }
            match e_obj_pairs(s, len, p2 + 1) {
                Some((rest_vec, p3)) => {
                    let mut ps = rest_vec;
                    ps.insert(0, (key, v));
                    proof {
                        assert(ps@[0].0 == key && ps@[0].1 == v);
                        assert(ps@.skip(1) =~= rest_vec@);
                        assert(view_pairs(ps@) == seq![(ps@[0].0@, value_view(ps@[0].1))]
                            + view_pairs(ps@.skip(1)));
                        assert forall|fuel: nat| fuel >= 2 * (len - pos) + 2 implies #[trigger]
                        p_vv_pairs(rem, fuel) == Some(
                            (view_pairs(ps@), s@.skip(p3 as int)),
                        ) by {
                            assert(fuel - 1 >= 2 * (len - (kp + 1)) + 1);
                            assert(p_vview(s@.skip(kp + 1), (fuel - 1) as nat) == Some(
                                (value_view(v), s@.skip(p2 as int)),
                            ));
                            assert(fuel - 1 >= 2 * (len - (p2 + 1)) + 2);
                            assert(p_vv_pairs(s@.skip(p2 + 1), (fuel - 1) as nat) == Some(
                                (view_pairs(rest_vec@), s@.skip(p3 as int)),
                            ));
                            assert(view_pairs(ps@) =~= seq![(key@, value_view(v))] + view_pairs(
                                rest_vec@,
                            ));
                        }
                    }
                    Some((ps, p3))
                },
                None => {
                    proof {
                        assert forall|fuel: nat| fuel >= 2 * (len - pos) + 2 implies match
                        #[trigger] p_vv_pairs(rem, fuel) {
                            None => true,
                            Some((ps, _)) => !readable_pairs(ps),
                        } by {
                            assert(fuel - 1 >= 2 * (len - (kp + 1)) + 1);
                            assert(p_vview(s@.skip(kp + 1), (fuel - 1) as nat) == Some(
                                (value_view(v), s@.skip(p2 as int)),
                            ));
                            assert(fuel - 1 >= 2 * (len - (p2 + 1)) + 2);
                            assert(match p_vv_pairs(s@.skip(p2 + 1), (fuel - 1) as nat) {
                                None => true,
                                Some((ps2, _)) => !readable_pairs(ps2),
                            });
                            match p_vv_pairs(s@.skip(p2 + 1), (fuel - 1) as nat) {
                                Some((ps2, r2)) => {
                                    assert((seq![(key@, value_view(v))] + ps2).skip(1)
                                        =~= ps2);
                                    assert(!readable_pairs(
                                        seq![(key@, value_view(v))] + ps2,
                                    ));
                                },
                                None => {},
                            }
                        }
                    }
                    None
                },
            }
        },
        None => {
            proof {
                assert forall|fuel: nat| fuel >= 2 * (len - pos) + 2 implies match #[trigger]
                p_vv_pairs(rem, fuel) {
                    None => true,
                    Some((ps, _)) => !readable_pairs(ps),
                } by {
                    assert(fuel - 1 >= 2 * (len - (kp + 1)) + 1);
                    assert(match p_vview(s@.skip(kp + 1), (fuel - 1) as nat) {
                        None => true,
                        Some((v, _)) => !vv_readable(v),
                    });
                    match p_vview(s@.skip(kp + 1), (fuel - 1) as nat) {
                        Some((v0, r)) => {
                            assert(!vv_readable(v0));
                            if r.len() > 0 && r[0] == ',' {
                                match p_vv_pairs(r.skip(1), (fuel - 1) as nat) {
                                    Some((ps2, r2)) => {
                                        assert((seq![(key@, v0)] + ps2)[0] == (key@, v0));
                                        assert(!readable_pairs(seq![(key@, v0)] + ps2));
                                    },
                                    None => {},
                                }
                            } else if r.len() > 0 && r[0] == '}' {
                                assert((seq![(key@, v0)])[0] == (key@, v0));
                                assert((seq![(key@, v0)]).skip(1) =~= Seq::<
                                    (Seq<char>, VView),
                                >::empty());
                                assert(!readable_pairs(seq![(key@, v0)]));
                            }
                        },
                        None => {},
                    }
                }
            }
            None
        },
    }
}


/// The fuel a whole line is read under.
pub open spec fn line_fuel(s: Seq<char>) -> nat {
    (2 * s.len() + 2) as nat
}

/// A parsed line a reader can materialize: its payload integers and its
/// timestamp fit 64-bit values.
pub open spec fn record_readable(rv: RecordView) -> bool {
    vv_readable(rv.context) && i64::MIN <= rv.timestamp <= i64::MAX
}

/// Reads one persisted line back into a record. Returns exactly the
/// record whose view the canonical parser yields, and fails only where
/// the parser fails or where a value cannot be materialized.
#[verifier::rlimit(100)]
pub fn decode_line(s: &str) -> (r: Option<DeedEvent>)
    ensures
        match r {
            Some(ev) => p_record(s@, line_fuel(s@)) == Some(record_view(ev)) && category_wf(
                ev.category,
            ),
            None => match p_record(s@, line_fuel(s@)) {
                None => true,
                Some(rv) => !record_readable(rv),
            },
        },
{
    let len = s.unicode_len();
    let ghost fuel = line_fuel(s@);
    proof {
        assert(s@.skip(0) =~= s@);
    }
    let p1 = match e_lit(s, len, 0, "{\"actor_id\":\"") {
        Some(p) => p,
        None => {
            return None;
        },
    };
    let (actor, p2) = match e_str_body(s, len, p1) {
        Some(x) => x,
        None => {
            return None;
        },
    };
    let p3 = match e_lit(s, len, p2, ",\"context_json\":") {
        Some(p) => p,
        None => {
            return None;
        },
    };
    let (ctx, p4) = match e_value(s, len, p3) {
        Some(x) => x,
        None => {
            proof {
                assert(fuel >= 2 * (len - p3) + 1);
            }
            return None;
        },
    };
    proof {
        assert(fuel >= 2 * (len - p3) + 1);
        assert(p_vview(s@.skip(p3 as int), fuel) == Some((value_view(ctx), s@.skip(p4 as int))));
    }
    let p5 = match e_lit(s, len, p4, ",\"deed_type\":\"") {
        Some(p) => p,
        None => {
            return None;
        },
    };
    let (dt, p6) = match e_str_body(s, len, p5) {
        Some(x) => x,
        None => {
            return None;
        },
    };
    let p7 = match e_lit(s, len, p6, ",\"ethics_flags\":") {
        Some(p) => p,
        None => {
            return None;
        },
    };
    let (eth, p8) = match e_slist(s, len, p7) {
        Some(x) => x,
        None => {
            proof {
                assert(fuel >= len - p7 + 1);
            }
            return None;
        },
    };
    proof {
        assert(fuel >= len - p7 + 1);
        assert(p_slist(s@.skip(p7 as int), fuel) == Some((strs_views(eth@), s@.skip(p8 as int))));
    }
    decode_tail(s, len, p8, actor, ctx, dt, eth)
}

#[verifier::rlimit(100)]
fn decode_tail(
    s: &str,
    len: usize,
    pos: usize,
    actor: String,
    ctx: Value,
    dt: String,
    eth: Vec<String>,
) -> (r: Option<DeedEvent>)
    requires
        len == s@.len(),
        pos <= len,
    ensures
        match r {
            Some(ev) => p_record_tail(
                s@.skip(pos as int),
                line_fuel(s@),
                actor@,
                value_view(ctx),
                dt@,
                strs_views(eth@),
            ) == Some(record_view(ev)) && category_wf(ev.category),
            None => match p_record_tail(
                s@.skip(pos as int),
                line_fuel(s@),
                actor@,
                value_view(ctx),
                dt@,
                strs_views(eth@),
            ) {
                None => true,
                Some(rv) => !record_readable(rv),
            },
        },
{
    let ghost fuel = line_fuel(s@);
    let p9 = match e_lit(s, len, pos, ",\"event_id\":\"") {
        Some(p) => p,
        None => {
            return None;
        },
    };
    let (eid, p10) = match e_str_body(s, len, p9) {
        Some(x) => x,
        None => {
            return None;
        },
    };
    let p11 = match e_lit(s, len, p10, ",\"life_harm_flag\":") {
        Some(p) => p,
        None => {
            return None;
        },
    };
    let (harm, p12) = match e_bool(s, len, p11) {
        Some(x) => x,
        None => {
            return None;
        },
    };
    let p13 = match e_lit(s, len, p12, ",\"prev_hash\":\"") {
        Some(p) => p,
        None => {
            return None;
        },
    };
    let (prev, p14) = match e_str_body(s, len, p13) {
        Some(x) => x,
        None => {
            return None;
        },
    };
    let p15 = match e_lit(s, len, p14, ",\"self_hash\":\"") {
        Some(p) => p,
        None => {
            return None;
        },
    };
    let (selfh, p16) = match e_str_body(s, len, p15) {
        Some(x) => x,
        None => {
            return None;
        },
    };
    decode_tail2(s, len, p16, actor, ctx, dt, eth, eid, harm, prev, selfh)
}

#[verifier::rlimit(100)]
fn decode_tail2(
    s: &str,
    len: usize,
    pos: usize,
    actor: String,
    ctx: Value,
    dt: String,
    eth: Vec<String>,
    eid: String,
    harm: bool,
    prev: String,
    selfh: String,
) -> (r: Option<DeedEvent>)
    requires
        len == s@.len(),
        pos <= len,
    ensures
        match r {
            Some(ev) => p_record_tail2(
                s@.skip(pos as int),
                line_fuel(s@),
                actor@,
                value_view(ctx),
                dt@,
                strs_views(eth@),
                eid@,
                harm,
                prev@,
                selfh@,
            ) == Some(record_view(ev)) && category_wf(ev.category),
            None => match p_record_tail2(
                s@.skip(pos as int),
                line_fuel(s@),
                actor@,
                value_view(ctx),
                dt@,
                strs_views(eth@),
                eid@,
                harm,
                prev@,
                selfh@,
            ) {
                None => true,
                Some(rv) => !record_readable(rv),
            },
        },
{
    let ghost fuel = line_fuel(s@);
    let p17 = match e_lit(s, len, pos, ",\"tags\":") {
        Some(p) => p,
        None => {
            return None;
        },
    };
    let (tags, p18) = match e_slist(s, len, p17) {
        Some(x) => x,
        None => {
            proof {
                assert(fuel >= len - p17 + 1);
            }
            return None;
        },
    };
    proof {
        assert(fuel >= len - p17 + 1);
        assert(p_slist(s@.skip(p17 as int), fuel) == Some(
            (strs_views(tags@), s@.skip(p18 as int)),
        ));
    }
    let p19 = match e_lit(s, len, p18, ",\"target_ids\":") {
        Some(p) => p,
        None => {
            return None;
        },
    };
    let (tgts, p20) = match e_slist(s, len, p19) {
        Some(x) => x,
        None => {
            proof {
                assert(fuel >= len - p19 + 1);
            }
            return None;
        },
    };
    proof {
        assert(fuel >= len - p19 + 1);
        assert(p_slist(s@.skip(p19 as int), fuel) == Some(
            (strs_views(tgts@), s@.skip(p20 as int)),
        ));
    }
    let p21 = match e_lit(s, len, p20, ",\"timestamp\":") {
        Some(p) => p,
        None => {
            return None;
        },
    };
    let (ts, p22) = match e_int(s, len, p21) {
        Some(x) => x,
        None => {
            return None;
        },
    };
    if !(len - p22 == 1) {
        proof {
            assert(s@.skip(p22 as int).len() != 1);
            assert(s@.skip(p22 as int) != seq!['}']);
        }
        return None;
    }
    proof {
        assert(s@.skip(p22 as int)[0] == s@[p22 as int]);
    }
    if s.get_char(p22) != '}' {
        proof {
            assert(s@.skip(p22 as int) != seq!['}']);
        }
        return None;
    }
    proof {
        assert(s@.skip(p22 as int) =~= seq!['}']);
    }
    let category = parse_category(dt);
    let ev = DeedEvent {
        event_id: eid,
        timestamp: ts,
        prev_hash: prev,
        self_hash: selfh,
        actor_id: actor,
        target_ids: tgts,
        category,
        tags,
        context_json: ctx,
        ethics_flags: eth,
        life_harm_flag: harm,
    };
    proof {
        assert(record_view(ev) =~= RecordView {
            actor_id: ev.actor_id@,
            context: value_view(ev.context_json),
            deed_type: dt@,
            ethics_flags: strs_views(ev.ethics_flags@),
            event_id: ev.event_id@,
            life_harm_flag: harm,
            prev_hash: ev.prev_hash@,
            self_hash: ev.self_hash@,
            tags: strs_views(ev.tags@),
            target_ids: strs_views(ev.target_ids@),
            timestamp: ts as int,
        });
    }
    Some(ev)
}

/// Two records with one view have one persisted line and one canonical
/// text: the stored bytes are a function of the record's content alone.
pub proof fn lemma_line_text_of_view(a: DeedEvent, b: DeedEvent)
    requires
        record_view(a) == record_view(b),
    ensures
        line_text(a) == line_text(b),
        canon_text(a) == canon_text(b),
{
    reveal(canon_text);
    lemma_text_is_view(a.context_json);
    lemma_text_is_view(b.context_json);
    lemma_str_list_of_views(a.ethics_flags@, b.ethics_flags@);
    lemma_str_list_of_views(a.tags@, b.tags@);
    lemma_str_list_of_views(a.target_ids@, b.target_ids@);
}

/// Lists of strings with the same views serialize identically.
proof fn lemma_str_list_of_views(l1: Seq<String>, l2: Seq<String>)
    requires
        strs_views(l1) == strs_views(l2),
    ensures
        str_list_text(l1) == str_list_text(l2),
        str_items_text(l1) == str_items_text(l2),
    decreases l1.len(),
{
    lemma_strs_views_len(l1);
    lemma_strs_views_len(l2);
    if l1.len() == 0 {
    } else {
        assert(strs_views(l1)[0] == l1[0]@);
        assert(strs_views(l2)[0] == l2[0]@);
        assert(strs_views(l1).skip(1) =~= strs_views(l1.skip(1)));
        assert(strs_views(l2).skip(1) =~= strs_views(l2.skip(1)));
        lemma_str_list_of_views(l1.skip(1), l2.skip(1));
    }
}

proof fn lemma_strs_views_len(l: Seq<String>)
    ensures
        strs_views(l).len() == l.len(),
    decreases l.len(),
{
    if l.len() > 0 {
        lemma_strs_views_len(l.skip(1));
    }
}

/// The canonical text a realizable record view determines: the canon of
/// any record bearing that view (well defined by
/// `lemma_line_text_of_view`).
pub open spec fn canon_of_view(rv: RecordView) -> Seq<char> {
    canon_text(choose|d: DeedEvent| record_view(d) == rv)
}

/// On realizable views, `canon_of_view` agrees with the record's own
/// canonical text.
pub proof fn lemma_canon_of_view(d: DeedEvent)
    ensures
        canon_of_view(record_view(d)) == canon_text(d),
{
    assert(record_view(d) == record_view(d));
    let d2 = choose|d2: DeedEvent| record_view(d2) == record_view(d);
    lemma_line_text_of_view(d2, d);
}

/// The store round trip: the persisted line of any record parses back to
/// the record's exact view, so re-deriving the line from what was read
/// gives byte-identical storage.
pub proof fn lemma_store_round_trip(d: DeedEvent)
    ensures
        p_record(line_text(d), line_fuel(line_text(d))) == Some(record_view(d)),
{
    lemma_p_record_of_line(d, line_fuel(line_text(d)));
}

/// Byte-identical reload: any record a reader reconstructs from a stored
/// line (see `decode_line`) re-derives exactly the stored bytes, and the
/// same canonical text, so hashes survive the round trip too.
pub proof fn lemma_reload_rederives_line(d: DeedEvent, e: DeedEvent)
    requires
        p_record(line_text(d), line_fuel(line_text(d))) == Some(record_view(e)),
    ensures
        line_text(e) == line_text(d),
        canon_text(e) == canon_text(d),
{
    lemma_store_round_trip(d);
    lemma_line_text_of_view(d, e);
}

} // verus!
