//! The structured evidence payload carried by a deed record, and its
//! canonical text: a JSON object whose keys are kept recursively sorted, so
//! that the canonical form — and therefore the hash — is a pure function of
//! the contents.

use vstd::prelude::*;
use vstd::string::StrSliceExecFns;
use vstd::string::StringExecFns;

verus! {

/// A structured evidence value. Object keys are kept strictly sorted
/// (see `value_wf`), which makes the canonical text deterministic.
#[derive(Debug)]
pub enum Value {
    Null,
    Bool(bool),
    Int(i64),
    Str(String),
    Arr(Vec<Value>),
    Obj(Vec<(String, Value)>),
}

/// Lexicographic order on character sequences, by code point.
pub open spec fn seq_lt(a: Seq<char>, b: Seq<char>) -> bool
    decreases a.len(),
{
    if b.len() == 0 {
        false
    } else if a.len() == 0 {
        true
    } else if (a[0] as u32) < (b[0] as u32) {
        true
    } else if a[0] == b[0] {
        seq_lt(a.skip(1), b.skip(1))
    } else {
        false
    }
}

/// Each object key is strictly below its successor, so keys are distinct
/// and in one canonical order.
pub open spec fn keys_sorted(ps: Seq<(String, Value)>) -> bool {
    forall|i: int| 0 <= i && i + 1 < ps.len() ==> seq_lt(#[trigger] ps[i].0@, ps[i + 1].0@)
}

/// Well-formed: every object in the tree has strictly sorted keys.
pub open spec fn value_wf(v: Value) -> bool
    decreases v,
{
    match v {
        Value::Arr(vs) => all_wf(vs@),
        Value::Obj(ps) => keys_sorted(ps@) && all_pairs_wf(ps@),
        _ => true,
    }
}

pub open spec fn all_wf(vs: Seq<Value>) -> bool
    decreases vs,
{
    if vs.len() == 0 {
        true
    } else {
        value_wf(vs[0]) && all_wf(vs.skip(1))
    }
}

pub open spec fn all_pairs_wf(ps: Seq<(String, Value)>) -> bool
    decreases ps,
{
    if ps.len() == 0 {
        true
    } else {
        value_wf(ps[0].1) && all_pairs_wf(ps.skip(1))
    }
}

/// The hex digit character for a value below sixteen.
pub open spec fn hex_char(n: int) -> char {
    if n == 0 {
        '0'
    } else if n == 1 {
        '1'
    } else if n == 2 {
        '2'
    } else if n == 3 {
        '3'
    } else if n == 4 {
        '4'
    } else if n == 5 {
        '5'
    } else if n == 6 {
        '6'
    } else if n == 7 {
        '7'
    } else if n == 8 {
        '8'
    } else if n == 9 {
        '9'
    } else if n == 10 {
        'a'
    } else if n == 11 {
        'b'
    } else if n == 12 {
        'c'
    } else if n == 13 {
        'd'
    } else if n == 14 {
        'e'
    } else {
        'f'
    }
}

/// The canonical escape of one character inside a JSON string: quote and
/// backslash get a backslash escape, control characters a `\u00` escape,
/// and every other character stands for itself.
pub open spec fn esc_char(c: char) -> Seq<char> {
    if c == '"' {
        seq!['\\', '"']
    } else if c == '\\' {
        seq!['\\', '\\']
    } else if (c as u32) < 32 {
        seq!['\\', 'u', '0', '0', hex_char(c as u32 as int / 16), hex_char(c as u32 as int % 16)]
    } else {
        seq![c]
    }
}

/// The canonical escape of a whole string.
pub open spec fn esc(s: Seq<char>) -> Seq<char>
    decreases s.len(),
{
    if s.len() == 0 {
        Seq::empty()
    } else {
        esc_char(s[0]) + esc(s.skip(1))
    }
}

/// A string in canonical text: escaped and quoted.
pub open spec fn quoted(s: Seq<char>) -> Seq<char> {
    seq!['"'] + esc(s) + seq!['"']
}

pub open spec fn digit_char(n: int) -> char {
    hex_char(if 0 <= n < 10 {
        n
    } else {
        0
    })
}

/// Decimal digits of a non-negative integer, no leading zeros.
pub open spec fn dec_digits(n: int) -> Seq<char>
    decreases n,
{
    if n < 10 {
        seq![digit_char(n)]
    } else {
        dec_digits(n / 10) + seq![digit_char(n % 10)]
    }
}

/// Canonical decimal text of an integer.
pub open spec fn int_text(i: int) -> Seq<char> {
    if i < 0 {
        seq!['-'] + dec_digits(-i)
    } else {
        dec_digits(i)
    }
}

/// The canonical text of a value.
pub open spec fn value_text(v: Value) -> Seq<char>
    decreases v,
{
    match v {
        Value::Null => seq!['n', 'u', 'l', 'l'],
        Value::Bool(b) => if b {
            seq!['t', 'r', 'u', 'e']
        } else {
            seq!['f', 'a', 'l', 's', 'e']
        },
        Value::Int(i) => int_text(i as int),
        Value::Str(s) => quoted(s@),
        Value::Arr(vs) => seq!['['] + arr_items_text(vs@) + seq![']'],
        Value::Obj(ps) => seq!['{'] + obj_items_text(ps@) + seq!['}'],
    }
}

pub open spec fn arr_items_text(vs: Seq<Value>) -> Seq<char>
    decreases vs,
{
    if vs.len() == 0 {
        Seq::empty()
    } else if vs.len() == 1 {
        value_text(vs[0])
    } else {
        value_text(vs[0]) + seq![','] + arr_items_text(vs.skip(1))
    }
}

pub open spec fn obj_items_text(ps: Seq<(String, Value)>) -> Seq<char>
    decreases ps,
{
    if ps.len() == 0 {
        Seq::empty()
    } else if ps.len() == 1 {
        quoted(ps[0].0@) + seq![':'] + value_text(ps[0].1)
    } else {
        quoted(ps[0].0@) + seq![':'] + value_text(ps[0].1) + seq![','] + obj_items_text(ps.skip(1))
    }
}

/// Appending one element extends the comma-separated item text.
pub proof fn lemma_arr_items_push(vs: Seq<Value>, v: Value)
    ensures
        arr_items_text(vs.push(v)) == if vs.len() == 0 {
            value_text(v)
        } else {
            arr_items_text(vs) + seq![','] + arr_items_text(seq![v])
        },
    decreases vs.len(),
{
    let p = vs.push(v);
    if vs.len() == 0 {
        assert(p.len() == 1);
        assert(p[0] == v);
    } else {
        assert(p[0] == vs[0]);
        assert(p.skip(1) =~= vs.skip(1).push(v));
        lemma_arr_items_push(vs.skip(1), v);
        if vs.len() == 1 {
            assert(vs.skip(1).len() == 0);
            assert(arr_items_text(p) =~= arr_items_text(vs) + seq![','] + arr_items_text(
                seq![v],
            ));
        } else {
            assert(arr_items_text(p) =~= arr_items_text(vs) + seq![','] + arr_items_text(
                seq![v],
            ));
        }
    }
}

pub proof fn lemma_obj_items_push(ps: Seq<(String, Value)>, p: (String, Value))
    ensures
        obj_items_text(ps.push(p)) == if ps.len() == 0 {
            obj_items_text(seq![p])
        } else {
            obj_items_text(ps) + seq![','] + obj_items_text(seq![p])
        },
    decreases ps.len(),
{
    let q = ps.push(p);
    if ps.len() == 0 {
        assert(q.len() == 1);
        assert(q[0] == p);
    } else {
        assert(q[0] == ps[0]);
        assert(q.skip(1) =~= ps.skip(1).push(p));
        lemma_obj_items_push(ps.skip(1), p);
        if ps.len() == 1 {
            assert(obj_items_text(q) =~= obj_items_text(ps) + seq![','] + obj_items_text(
                seq![p],
            ));
        } else {
            assert(obj_items_text(q) =~= obj_items_text(ps) + seq![','] + obj_items_text(
                seq![p],
            ));
        }
    }
}

/// Escaping distributes over extension by one character.
pub proof fn lemma_esc_push(s: Seq<char>, c: char)
    ensures
        esc(s.push(c)) == esc(s) + esc_char(c),
    decreases s.len(),
{
    let p = s.push(c);
    if s.len() == 0 {
        assert(p[0] == c);
        assert(p.skip(1) =~= Seq::<char>::empty());
        assert(esc(p.skip(1)) == Seq::<char>::empty());
        assert(esc(p) == esc_char(c) + esc(p.skip(1)));
        assert(esc(s) == Seq::<char>::empty());
        assert(esc(p) =~= esc(s) + esc_char(c));
    } else {
        assert(p[0] == s[0]);
        assert(p.skip(1) =~= s.skip(1).push(c));
        lemma_esc_push(s.skip(1), c);
        assert(esc(p) =~= esc(s) + esc_char(c));
    }
}

fn hex_char_exec(n: u32) -> (r: char)
    requires
        n < 16,
    ensures
        r == hex_char(n as int),
{
    if n == 0 {
        '0'
    } else if n == 1 {
        '1'
    } else if n == 2 {
        '2'
    } else if n == 3 {
        '3'
    } else if n == 4 {
        '4'
    } else if n == 5 {
        '5'
    } else if n == 6 {
        '6'
    } else if n == 7 {
        '7'
    } else if n == 8 {
        '8'
    } else if n == 9 {
        '9'
    } else if n == 10 {
        'a'
    } else if n == 11 {
        'b'
    } else if n == 12 {
        'c'
    } else if n == 13 {
        'd'
    } else if n == 14 {
        'e'
    } else {
        'f'
    }
}

/// Writes the canonical escape of `s`, between quotes, onto `out`.
pub fn write_quoted(s: &str, out: &mut String)
    ensures
        final(out)@ == old(out)@ + quoted(s@),
{
    let ghost base = out@;
    out.push('"');
    let len = s.unicode_len();
    let mut i: usize = 0;
    proof {
        assert(s@.take(0) =~= Seq::<char>::empty());
        assert(out@ =~= base + seq!['"'] + esc(s@.take(0)));
    }
    while i < len
        invariant
            i <= len,
            len == s@.len(),
            out@ == base + seq!['"'] + esc(s@.take(i as int)),
        decreases len - i,
    {
        let c = s.get_char(i);
        let code = c as u32;
        if c == '"' {
            out.push('\\');
            out.push('"');
        } else if c == '\\' {
            out.push('\\');
            out.push('\\');
        } else if code < 32 {
            out.push('\\');
            out.push('u');
            out.push('0');
            out.push('0');
            out.push(hex_char_exec(code / 16));
            out.push(hex_char_exec(code % 16));
        } else {
            out.push(c);
        }
        proof {
            lemma_esc_push(s@.take(i as int), c);
            assert(s@.take(i + 1).drop_last() =~= s@.take(i as int));
            assert(s@.take(i + 1) =~= s@.take(i as int).push(c));
            assert(out@ =~= base + seq!['"'] + esc(s@.take(i + 1)));
        }
        i = i + 1;
    }
    out.push('"');
    proof {
        assert(s@.take(len as int) =~= s@);
        assert(out@ =~= base + quoted(s@));
    }
}

fn digit_char_exec(n: u64) -> (r: char)
    requires
        n < 10,
    ensures
        r == digit_char(n as int),
{
    hex_char_exec(n as u32)
}

/// Writes the decimal digits of `n` onto `out`.
pub fn write_nat(n: u64, out: &mut String)
    ensures
        final(out)@ == old(out)@ + dec_digits(n as int),
    decreases n,
{
    if n < 10 {
        out.push(digit_char_exec(n));
        proof {
            assert(final(out)@ =~= old(out)@ + dec_digits(n as int));
        }
    } else {
        write_nat(n / 10, out);
        out.push(digit_char_exec(n % 10));
        proof {
            assert(final(out)@ =~= old(out)@ + dec_digits(n as int));
        }
    }
}

/// Writes the canonical decimal text of `i` onto `out`.
pub fn write_int(i: i64, out: &mut String)
    ensures
        final(out)@ == old(out)@ + int_text(i as int),
{
    if i >= 0 {
        write_nat(i as u64, out);
    } else {
        out.push('-');
        let mag: u64 = if i == i64::MIN {
            9223372036854775808u64
        } else {
            (-i) as u64
        };
        proof {
            assert(mag as int == -(i as int));
        }
        write_nat(mag, out);
        proof {
            assert(final(out)@ =~= old(out)@ + int_text(i as int));
        }
    }
}

/// Writes the canonical text of `v` onto `out`.
pub fn write_value(v: &Value, out: &mut String)
    ensures
        final(out)@ == old(out)@ + value_text(*v),
    decreases v,
{
    match v {
        Value::Null => {
            proof {
                reveal_strlit("null");
            }
            out.append("null");
            proof {
                assert("null"@ =~= seq!['n', 'u', 'l', 'l']);
            }
        },
        Value::Bool(b) => {
            if *b {
                proof {
                    reveal_strlit("true");
                }
                out.append("true");
                proof {
                    assert("true"@ =~= seq!['t', 'r', 'u', 'e']);
                }
            } else {
                proof {
                    reveal_strlit("false");
                }
                out.append("false");
                proof {
                    assert("false"@ =~= seq!['f', 'a', 'l', 's', 'e']);
                }
            }
        },
        Value::Int(i) => {
            write_int(*i, out);
        },
        Value::Str(s) => {
            write_quoted(s.as_str(), out);
        },
        Value::Arr(vs) => {
            out.push('[');
            proof {
                assert(vs@.skip(0) =~= vs@);
            }
            write_arr_items(vs, 0, out);
            out.push(']');
            proof {
                assert(final(out)@ =~= old(out)@ + value_text(*v));
            }
        },
        Value::Obj(ps) => {
            out.push('{');
            proof {
                assert(ps@.skip(0) =~= ps@);
            }
            write_obj_items(ps, 0, out);
            out.push('}');
            proof {
                assert(final(out)@ =~= old(out)@ + value_text(*v));
            }
        },
    }
}

fn write_arr_items(vs: &Vec<Value>, i: usize, out: &mut String)
    requires
        i <= vs@.len(),
    ensures
        final(out)@ == old(out)@ + arr_items_text(vs@.skip(i as int)),
    decreases vs@.skip(i as int),
{
    if i < vs.len() {
        proof {
            assert(vs@.skip(i as int)[0] == vs@[i as int]);
        }
        write_value(&vs[i], out);
        if i + 1 < vs.len() {
            out.push(',');
            proof {
                assert(vs@.skip(i as int).skip(1) =~= vs@.skip(i + 1));
            }
            write_arr_items(vs, i + 1, out);
            proof {
                assert(final(out)@ =~= old(out)@ + arr_items_text(vs@.skip(i as int)));
            }
        } else {
            proof {
                assert(vs@.skip(i as int).len() == 1);
                assert(final(out)@ =~= old(out)@ + arr_items_text(vs@.skip(i as int)));
            }
        }
    } else {
        proof {
            assert(vs@.skip(i as int).len() == 0);
            assert(final(out)@ =~= old(out)@ + arr_items_text(vs@.skip(i as int)));
        }
    }
}

fn write_obj_items(ps: &Vec<(String, Value)>, i: usize, out: &mut String)
    requires
        i <= ps@.len(),
    ensures
        final(out)@ == old(out)@ + obj_items_text(ps@.skip(i as int)),
    decreases ps@.skip(i as int),
{
    if i < ps.len() {
        proof {
            assert(ps@.skip(i as int)[0] == ps@[i as int]);
        }
        write_quoted(ps[i].0.as_str(), out);
        out.push(':');
        write_value(&ps[i].1, out);
        if i + 1 < ps.len() {
            out.push(',');
            proof {
                assert(ps@.skip(i as int).skip(1) =~= ps@.skip(i + 1));
            }
            write_obj_items(ps, i + 1, out);
            proof {
                assert(final(out)@ =~= old(out)@ + obj_items_text(ps@.skip(i as int)));
            }
        } else {
            proof {
                assert(ps@.skip(i as int).len() == 1);
                assert(final(out)@ =~= old(out)@ + obj_items_text(ps@.skip(i as int)));
            }
        }
    } else {
        proof {
            assert(ps@.skip(i as int).len() == 0);
            assert(final(out)@ =~= old(out)@ + obj_items_text(ps@.skip(i as int)));
        }
    }
}


/// Lexicographic comparison of two string slices.
pub fn str_lt(a: &str, b: &str) -> (r: bool)
    ensures
        r == seq_lt(a@, b@),
{
    let la = a.unicode_len();
    let lb = b.unicode_len();
    let mut i: usize = 0;
    proof {
        assert(a@.skip(0) =~= a@);
        assert(b@.skip(0) =~= b@);
    }
    while i < la && i < lb
        invariant
            i <= la,
            i <= lb,
            la == a@.len(),
            lb == b@.len(),
            seq_lt(a@, b@) == seq_lt(a@.skip(i as int), b@.skip(i as int)),
        decreases la - i,
    {
        let ca = a.get_char(i);
        let cb = b.get_char(i);
        proof {
            assert(a@.skip(i as int)[0] == a@[i as int]);
            assert(b@.skip(i as int)[0] == b@[i as int]);
            assert(a@.skip(i as int).skip(1) =~= a@.skip(i + 1));
            assert(b@.skip(i as int).skip(1) =~= b@.skip(i + 1));
        }
        if (ca as u32) < (cb as u32) {
            return true;
        }
        if ca != cb {
            return false;
        }
        i = i + 1;
    }
    proof {
        if i >= lb {
            assert(b@.skip(i as int).len() == 0);
        } else {
            assert(a@.skip(i as int).len() == 0);
            assert(b@.skip(i as int).len() > 0);
        }
    }
    i < lb
}

proof fn lemma_all_wf_index(vs: Seq<Value>)
    ensures
        all_wf(vs) <==> (forall|i: int| 0 <= i < vs.len() ==> value_wf(#[trigger] vs[i])),
    decreases vs,
{
    if vs.len() > 0 {
        lemma_all_wf_index(vs.skip(1));
        assert forall|i: int| 0 <= i < vs.len() && all_wf(vs) implies value_wf(
            #[trigger] vs[i],
        ) by {
            if i > 0 {
                assert(vs.skip(1)[i - 1] == vs[i]);
            }
        }
        if forall|i: int| 0 <= i < vs.len() ==> value_wf(#[trigger] vs[i]) {
            assert forall|i: int| 0 <= i < vs.skip(1).len() implies value_wf(
                #[trigger] vs.skip(1)[i],
            ) by {
                assert(vs.skip(1)[i] == vs[i + 1]);
            }
        }
    }
}

proof fn lemma_all_pairs_wf_index(ps: Seq<(String, Value)>)
    ensures
        all_pairs_wf(ps) <==> (forall|i: int|
            0 <= i < ps.len() ==> value_wf(#[trigger] ps[i].1)),
    decreases ps,
{
    if ps.len() > 0 {
        lemma_all_pairs_wf_index(ps.skip(1));
        assert forall|i: int| 0 <= i < ps.len() && all_pairs_wf(ps) implies value_wf(
            #[trigger] ps[i].1,
        ) by {
            if i > 0 {
                assert(ps.skip(1)[i - 1] == ps[i]);
            }
        }
        if forall|i: int| 0 <= i < ps.len() ==> value_wf(#[trigger] ps[i].1) {
            assert forall|i: int| 0 <= i < ps.skip(1).len() implies value_wf(
                #[trigger] ps.skip(1)[i].1,
            ) by {
                assert(ps.skip(1)[i] == ps[i + 1]);
            }
        }
    }
}

/// Runtime check that a value is well-formed (recursively sorted object
/// keys), for callers that assemble a payload from unchecked parts.
pub fn value_is_wf(v: &Value) -> (r: bool)
    ensures
        r == value_wf(*v),
    decreases v,
{
    match v {
        Value::Null => true,
        Value::Bool(_) => true,
        Value::Int(_) => true,
        Value::Str(_) => true,
        Value::Arr(vs) => {
            proof {
                assert(vs@.skip(0) =~= vs@);
            }
            arr_all_wf(vs, 0)
        },
        Value::Obj(ps) => {
            proof {
                assert(ps@.skip(0) =~= ps@);
            }
            let pairs_ok = obj_all_wf(ps, 0);
            let sorted_ok = obj_sorted(ps);
            pairs_ok && sorted_ok
        },
    }
}

/// Runtime check that an object's keys strictly increase.
fn obj_sorted(ps: &Vec<(String, Value)>) -> (r: bool)
    ensures
        r == keys_sorted(ps@),
{
    let mut i: usize = 1;
    while i < ps.len()
        invariant
            1 <= i,
            forall|j: int| 0 <= j && j + 1 < i ==> seq_lt(#[trigger] ps@[j].0@, ps@[j + 1].0@),
        decreases ps@.len() - i,
    {
        if !str_lt(ps[i - 1].0.as_str(), ps[i].0.as_str()) {
            proof {
                assert(!keys_sorted(ps@)) by {
                    if keys_sorted(ps@) {
                        assert(seq_lt(ps@[i - 1].0@, ps@[(i - 1) + 1].0@));
                        assert(ps@[(i - 1) + 1] == ps@[i as int]);
                    }
                }
            }
            return false;
        }
        i = i + 1;
    }
    proof {
        assert(keys_sorted(ps@));
    }
    true
}

fn arr_all_wf(vs: &Vec<Value>, i: usize) -> (r: bool)
    requires
        i <= vs@.len(),
    ensures
        r == all_wf(vs@.skip(i as int)),
    decreases vs@.skip(i as int),
{
    if i < vs.len() {
        proof {
            assert(vs@.skip(i as int)[0] == vs@[i as int]);
            assert(vs@.skip(i as int).skip(1) =~= vs@.skip(i + 1));
        }
        if !value_is_wf(&vs[i]) {
            return false;
        }
        arr_all_wf(vs, i + 1)
    } else {
        proof {
            assert(vs@.skip(i as int).len() == 0);
        }
        true
    }
}

fn obj_all_wf(ps: &Vec<(String, Value)>, i: usize) -> (r: bool)
    requires
        i <= ps@.len(),
    ensures
        r == all_pairs_wf(ps@.skip(i as int)),
    decreases ps@.skip(i as int),
{
    if i < ps.len() {
        proof {
            assert(ps@.skip(i as int)[0] == ps@[i as int]);
            assert(ps@.skip(i as int).skip(1) =~= ps@.skip(i + 1));
        }
        if !value_is_wf(&ps[i].1) {
            return false;
        }
        obj_all_wf(ps, i + 1)
    } else {
        proof {
            assert(ps@.skip(i as int).len() == 0);
        }
        true
    }
}


impl Clone for Value {
    /// A deep copy. Verified code never relies on a contract for this;
    /// it exists for callers that assemble payloads.
    fn clone(&self) -> (r: Value)
        decreases self,
    {
        match self {
            Value::Null => Value::Null,
            Value::Bool(b) => Value::Bool(*b),
            Value::Int(i) => Value::Int(*i),
            Value::Str(s) => Value::Str(s.clone()),
            Value::Arr(vs) => Value::Arr(clone_values(vs)),
            Value::Obj(ps) => Value::Obj(clone_pairs(ps)),
        }
    }
}

fn clone_values(vs: &Vec<Value>) -> Vec<Value>
    decreases vs@,
{
    let mut out: Vec<Value> = Vec::new();
    let mut i: usize = 0;
    while i < vs.len()
        invariant
            i <= vs@.len(),
        decreases vs@.len() - i,
    {
        proof {
            assert(decreases_to!(vs@ => vs@[i as int]));
        }
        out.push(vs[i].clone());
        i = i + 1;
    }
    out
}

fn clone_pairs(ps: &Vec<(String, Value)>) -> Vec<(String, Value)>
    decreases ps@,
{
    let mut out: Vec<(String, Value)> = Vec::new();
    let mut i: usize = 0;
    while i < ps.len()
        invariant
            i <= ps@.len(),
        decreases ps@.len() - i,
    {
        proof {
            assert(decreases_to!(ps@ => ps@[i as int]));
            assert(decreases_to!(ps@[i as int] => ps@[i as int].1));
        }
        out.push((ps[i].0.clone(), ps[i].1.clone()));
        i = i + 1;
    }
    out
}

} // verus!
