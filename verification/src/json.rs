//! A verified JSON grammar for the documents this library's shapes
//! declare: one object whose members are string keys bound to scalar
//! values — strings or integers.
//!
//! The grammar follows JSON's object syntax: optional whitespace around
//! tokens, string literals with the single-character escapes, and integer
//! literals without a leading zero and without a fraction or exponent.
//! Deliberate bounds of this grammar, each answered with `MalformedBody`
//! by the body extractor: the `\uXXXX` escape form, non-integer numbers,
//! nested arrays or objects, and integer literals beyond the signed
//! 64-bit range.

use vstd::prelude::*;

use crate::text::{all_digits, copy_range, dec_u64, dec_val, is_digit, lemma_dec_val_nonneg};

verus! {

/// A scalar member value: a string's unescaped bytes, or an integer.
#[derive(Debug)]
pub enum JsonValue {
    Text(Vec<u8>),
    Int(i64),
}

/// Ghost image of a scalar member value.
pub enum JsonValueModel {
    Text(Seq<u8>),
    Int(int),
}

impl View for JsonValue {
    type V = JsonValueModel;

    open spec fn view(&self) -> JsonValueModel {
        match self {
            JsonValue::Text(t) => JsonValueModel::Text(t@),
            JsonValue::Int(v) => JsonValueModel::Int(*v as int),
        }
    }
}

/// Ghost image of an executable member list.
pub open spec fn members_model(ms: Seq<(Vec<u8>, JsonValue)>) -> Seq<(Seq<u8>, JsonValueModel)> {
    ms.map(|i: int, m: (Vec<u8>, JsonValue)| (m.0@, m.1@))
}

/// JSON insignificant whitespace.
pub open spec fn is_ws(b: u8) -> bool {
    b == 32 || b == 9 || b == 10 || b == 13
}

/// The first position at or after `i` that does not hold whitespace.
pub open spec fn ws_end(s: Seq<u8>, i: int) -> int
    decreases s.len() - i
        when 0 <= i <= s.len()
{
    if i < s.len() && is_ws(s[i]) {
        ws_end(s, i + 1)
    } else {
        i
    }
}

pub proof fn lemma_ws_end_bounds(s: Seq<u8>, i: int)
    requires
        0 <= i <= s.len(),
    ensures
        i <= ws_end(s, i) <= s.len(),
    decreases s.len() - i,
{
    if i < s.len() && is_ws(s[i]) {
        lemma_ws_end_bounds(s, i + 1);
    }
}

/// Skips insignificant whitespace.
fn skip_ws(s: &[u8], i: usize) -> (r: usize)
    requires
        i <= s@.len(),
    ensures
        r as int == ws_end(s@, i as int),
        i <= r <= s@.len(),
{
    let mut j = i;
    while j < s.len() && (s[j] == 32 || s[j] == 9 || s[j] == 10 || s[j] == 13)
        invariant
            i <= j <= s@.len(),
            ws_end(s@, i as int) == ws_end(s@, j as int),
        decreases s.len() - j,
    {
        j = j + 1;
    }
    j
}

/// The byte an escape sequence stands for: the two-character escapes of
/// JSON's string grammar.
pub open spec fn esc_char(b: u8) -> Option<u8> {
    if b == 34 {
        Some(34u8)
    } else if b == 92 {
        Some(92u8)
    } else if b == 47 {
        Some(47u8)
    } else if b == 98 {
        Some(8u8)
    } else if b == 102 {
        Some(12u8)
    } else if b == 110 {
        Some(10u8)
    } else if b == 114 {
        Some(13u8)
    } else if b == 116 {
        Some(9u8)
    } else {
        None
    }
}

fn esc_char_exec(b: u8) -> (r: Option<u8>)
    ensures
        r == esc_char(b),
{
    if b == 34 {
        Some(34)
    } else if b == 92 {
        Some(92)
    } else if b == 47 {
        Some(47)
    } else if b == 98 {
        Some(8)
    } else if b == 102 {
        Some(12)
    } else if b == 110 {
        Some(10)
    } else if b == 114 {
        Some(13)
    } else if b == 116 {
        Some(9)
    } else {
        None
    }
}

/// The content of a string literal read from `i`, just after its opening
/// quote, to its closing quote: the unescaped bytes and the position after
/// the closing quote. Control octets and unknown escapes are outside the
/// grammar.
pub open spec fn str_body(s: Seq<u8>, i: int) -> Option<(Seq<u8>, int)>
    decreases s.len() - i
        when 0 <= i <= s.len()
{
    if i >= s.len() {
        None
    } else if s[i] == 34 {
        Some((Seq::empty(), i + 1))
    } else if s[i] == 92 {
        if i + 1 < s.len() {
            match esc_char(s[i + 1]) {
                None => None,
                Some(c) => match str_body(s, i + 2) {
                    None => None,
                    Some((t, j)) => Some((seq![c] + t, j)),
                },
            }
        } else {
            None
        }
    } else if s[i] < 32 {
        None
    } else {
        match str_body(s, i + 1) {
            None => None,
            Some((t, j)) => Some((seq![s[i]] + t, j)),
        }
    }
}

pub proof fn lemma_str_body_range(s: Seq<u8>, i: int)
    requires
        0 <= i <= s.len(),
    ensures
        str_body(s, i) matches Some(tj) ==> i < tj.1 <= s.len(),
    decreases s.len() - i,
{
    if i < s.len() {
        if s[i] == 92 {
            if i + 1 < s.len() {
                lemma_str_body_range(s, i + 2);
            }
        } else if s[i] != 34 && s[i] >= 32 {
            lemma_str_body_range(s, i + 1);
        }
    }
}

/// Reads a string literal's content from just after its opening quote.
fn str_body_exec(s: &[u8], i: usize) -> (r: Option<(Vec<u8>, usize)>)
    requires
        i <= s@.len(),
    ensures
        (match r {
            Some(tj) => Some((tj.0@, tj.1 as int)),
            None => None,
        }) == str_body(s@, i as int),
        r matches Some(tj) ==> i < tj.1 <= s@.len(),
    decreases s@.len() - i,
{
    if i >= s.len() {
        return None;
    }
    let b = s[i];
    if b == 34 {
        return Some((Vec::new(), i + 1));
    }
    if b == 92 {
        if i + 1 < s.len() {
            match esc_char_exec(s[i + 1]) {
                None => None,
                Some(c) => match str_body_exec(s, i + 2) {
                    None => None,
                    Some((t, j)) => {
                        let mut t = t;
                        let ghost tg = t@;
                        t.insert(0, c);
                        proof {
                            assert(t@ =~= seq![c] + tg);
                        }
                        Some((t, j))
                    },
                },
            }
        } else {
            None
        }
    } else if b < 32 {
        None
    } else {
        match str_body_exec(s, i + 1) {
            None => None,
            Some((t, j)) => {
                let mut t = t;
                let ghost tg = t@;
                t.insert(0, b);
                proof {
                    assert(t@ =~= seq![b] + tg);
                }
                Some((t, j))
            },
        }
    }
}

/// A string literal at `i`: an opening quote, content, a closing quote.
pub open spec fn string_at(s: Seq<u8>, i: int) -> Option<(Seq<u8>, int)> {
    if 0 <= i < s.len() && s[i] == 34 {
        str_body(s, i + 1)
    } else {
        None
    }
}

/// Reads a string literal.
fn string_at_exec(s: &[u8], i: usize) -> (r: Option<(Vec<u8>, usize)>)
    requires
        i <= s@.len(),
    ensures
        (match r {
            Some(tj) => Some((tj.0@, tj.1 as int)),
            None => None,
        }) == string_at(s@, i as int),
        r matches Some(tj) ==> i < tj.1 <= s@.len(),
{
    if i < s.len() && s[i] == 34 {
        str_body_exec(s, i + 1)
    } else {
        None
    }
}

/// The first position at or after `i` that does not hold a decimal digit.
pub open spec fn digits_end(s: Seq<u8>, i: int) -> int
    decreases s.len() - i
        when 0 <= i <= s.len()
{
    if i < s.len() && is_digit(s[i]) {
        digits_end(s, i + 1)
    } else {
        i
    }
}

pub proof fn lemma_digits_end_facts(s: Seq<u8>, i: int)
    requires
        0 <= i <= s.len(),
    ensures
        i <= digits_end(s, i) <= s.len(),
        forall|j: int| i <= j < digits_end(s, i) ==> is_digit(#[trigger] s[j]),
        digits_end(s, i) < s.len() ==> !is_digit(s[digits_end(s, i)]),
    decreases s.len() - i,
{
    if i < s.len() && is_digit(s[i]) {
        lemma_digits_end_facts(s, i + 1);
    }
}

/// Finds the end of a run of decimal digits.
fn digits_end_exec(s: &[u8], i: usize) -> (r: usize)
    requires
        i <= s@.len(),
    ensures
        r as int == digits_end(s@, i as int),
        i <= r <= s@.len(),
{
    let mut j = i;
    while j < s.len() && 48 <= s[j] && s[j] <= 57
        invariant
            i <= j <= s@.len(),
            digits_end(s@, i as int) == digits_end(s@, j as int),
        decreases s.len() - j,
    {
        j = j + 1;
    }
    j
}

/// An integer literal at `i`: an optional minus sign, then digits with no
/// leading zero, not followed by a fraction or an exponent, with magnitude
/// within the signed 64-bit range.
pub open spec fn int_at(s: Seq<u8>, i: int) -> Option<(int, int)> {
    let neg = 0 <= i < s.len() && s[i] == 45;
    let d0 = if neg {
        i + 1
    } else {
        i
    };
    let de = digits_end(s, d0);
    if !(0 <= i <= s.len()) || de == d0 {
        None
    } else if s[d0] == 48 && de > d0 + 1 {
        None
    } else if de < s.len() && (s[de] == 46 || s[de] == 101 || s[de] == 69) {
        None
    } else {
        let v = dec_val(s.subrange(d0, de));
        if v > 0x7fff_ffff_ffff_ffff {
            None
        } else if neg {
            Some((-v, de))
        } else {
            Some((v, de))
        }
    }
}

/// Reads an integer literal.
fn int_at_exec(s: &[u8], i: usize) -> (r: Option<(i64, usize)>)
    requires
        i <= s@.len(),
    ensures
        (match r {
            Some(vj) => Some((vj.0 as int, vj.1 as int)),
            None => None,
        }) == int_at(s@, i as int),
        r matches Some(vj) ==> i < vj.1 <= s@.len(),
{
    let neg = i < s.len() && s[i] == 45;
    let d0 = if neg {
        i + 1
    } else {
        i
    };
    let de = digits_end_exec(s, d0);
    proof {
        lemma_digits_end_facts(s@, d0 as int);
    }
    if de == d0 {
        return None;
    }
    if s[d0] == 48 && de > d0 + 1 {
        return None;
    }
    if de < s.len() && (s[de] == 46 || s[de] == 101 || s[de] == 69) {
        return None;
    }
    let digits = copy_range(s, d0, de);
    proof {
        assert(all_digits(digits@));
        lemma_dec_val_nonneg(digits@);
    }
    match dec_u64(digits.as_slice()) {
        None => None,
        Some(v) => {
            proof {
                assert(v == dec_val(digits@));
                assert(0 <= dec_val(digits@) <= 0x7fff_ffff_ffff_ffff);
            }
            if neg {
                Some((-(v as i64), de))
            } else {
                Some((v as i64, de))
            }
        },
    }
}

pub proof fn lemma_int_range(s: Seq<u8>, i: int)
    requires
        0 <= i <= s.len(),
    ensures
        int_at(s, i) matches Some(vj) ==> i < vj.1 <= s.len(),
{
    let neg = 0 <= i < s.len() && s[i] == 45;
    let d0 = if neg {
        i + 1
    } else {
        i
    };
    lemma_digits_end_facts(s, d0);
}

pub proof fn lemma_value_range(s: Seq<u8>, i: int)
    requires
        0 <= i <= s.len(),
    ensures
        value_at(s, i) matches Some(vj) ==> i < vj.1 <= s.len(),
{
    if 0 <= i < s.len() && s[i] == 34 {
        lemma_str_body_range(s, i + 1);
    } else {
        lemma_int_range(s, i);
    }
}

/// A scalar value at `i`: a string literal or an integer literal.
pub open spec fn value_at(s: Seq<u8>, i: int) -> Option<(JsonValueModel, int)> {
    if 0 <= i < s.len() && s[i] == 34 {
        match str_body(s, i + 1) {
            None => None,
            Some((t, j)) => Some((JsonValueModel::Text(t), j)),
        }
    } else {
        match int_at(s, i) {
            None => None,
            Some((v, j)) => Some((JsonValueModel::Int(v), j)),
        }
    }
}

/// Reads a scalar value.
fn value_at_exec(s: &[u8], i: usize) -> (r: Option<(JsonValue, usize)>)
    requires
        i <= s@.len(),
    ensures
        (match r {
            Some(vj) => Some((vj.0@, vj.1 as int)),
            None => None,
        }) == value_at(s@, i as int),
        r matches Some(vj) ==> i < vj.1 <= s@.len(),
{
    if i < s.len() && s[i] == 34 {
        match str_body_exec(s, i + 1) {
            None => None,
            Some((t, j)) => Some((JsonValue::Text(t), j)),
        }
    } else {
        match int_at_exec(s, i) {
            None => None,
            Some((v, j)) => Some((JsonValue::Int(v), j)),
        }
    }
}

/// A member at `i`: a string key, a colon between optional whitespace, and
/// a scalar value.
pub open spec fn member_at(s: Seq<u8>, i: int) -> Option<((Seq<u8>, JsonValueModel), int)> {
    match string_at(s, i) {
        None => None,
        Some((k, j)) => {
            let j2 = ws_end(s, j);
            if j2 < s.len() && s[j2] == 58 {
                let j3 = ws_end(s, j2 + 1);
                match value_at(s, j3) {
                    None => None,
                    Some((v, j4)) => Some(((k, v), j4)),
                }
            } else {
                None
            }
        },
    }
}

pub proof fn lemma_member_range(s: Seq<u8>, i: int)
    requires
        0 <= i <= s.len(),
    ensures
        member_at(s, i) matches Some(mj) ==> i < mj.1 <= s.len(),
{
    match string_at(s, i) {
        None => {},
        Some((k, j)) => {
            if i < s.len() && s[i] == 34 {
                lemma_str_body_range(s, i + 1);
            }
            lemma_ws_end_bounds(s, j);
            let j2 = ws_end(s, j);
            if j2 < s.len() && s[j2] == 58 {
                lemma_ws_end_bounds(s, j2 + 1);
                let j3 = ws_end(s, j2 + 1);
                lemma_value_range(s, j3);
            }
        },
    }
}

/// Reads a member.
fn member_at_exec(s: &[u8], i: usize) -> (r: Option<((Vec<u8>, JsonValue), usize)>)
    requires
        i <= s@.len(),
    ensures
        (match r {
            Some(mj) => Some(((mj.0.0@, mj.0.1@), mj.1 as int)),
            None => None,
        }) == member_at(s@, i as int),
        r matches Some(mj) ==> i < mj.1 <= s@.len(),
{
    match string_at_exec(s, i) {
        None => None,
        Some((k, j)) => {
            let j2 = skip_ws(s, j);
            if j2 < s.len() && s[j2] == 58 {
                let j3 = skip_ws(s, j2 + 1);
                match value_at_exec(s, j3) {
                    None => None,
                    Some((v, j4)) => Some(((k, v), j4)),
                }
            } else {
                None
            }
        },
    }
}

/// One or more comma-separated members from `i`: the members in source
/// order and the position after the last member's trailing whitespace.
pub open spec fn members_at(s: Seq<u8>, i: int) -> Option<(Seq<(Seq<u8>, JsonValueModel)>, int)>
    decreases s.len() - i
        when 0 <= i <= s.len()
        via members_at_decreases
{
    match member_at(s, i) {
        None => None,
        Some((m, j)) => {
            let j2 = ws_end(s, j);
            if j2 < s.len() && s[j2] == 44 {
                let j3 = ws_end(s, j2 + 1);
                match members_at(s, j3) {
                    None => None,
                    Some((ms, j4)) => Some((seq![m] + ms, j4)),
                }
            } else {
                Some((seq![m], j2))
            }
        },
    }
}

#[via_fn]
proof fn members_at_decreases(s: Seq<u8>, i: int) {
    lemma_member_range(s, i);
    match member_at(s, i) {
        None => {},
        Some((m, j)) => {
            lemma_ws_end_bounds(s, j);
            let j2 = ws_end(s, j);
            if j2 < s.len() && s[j2] == 44 {
                lemma_ws_end_bounds(s, j2 + 1);
            }
        },
    }
}

/// Reads a comma-separated member list.
fn members_at_exec(s: &[u8], i: usize) -> (r: Option<(Vec<(Vec<u8>, JsonValue)>, usize)>)
    requires
        i <= s@.len(),
    ensures
        (match r {
            Some(mj) => Some((members_model(mj.0@), mj.1 as int)),
            None => None,
        }) == members_at(s@, i as int),
        r matches Some(mj) ==> i < mj.1 <= s@.len(),
    decreases s@.len() - i,
{
    match member_at_exec(s, i) {
        None => None,
        Some((m, j)) => {
            let j2 = skip_ws(s, j);
            if j2 < s.len() && s[j2] == 44 {
                let j3 = skip_ws(s, j2 + 1);
                match members_at_exec(s, j3) {
                    None => None,
                    Some((ms, j4)) => {
                        let mut ms = ms;
                        let ghost msg = members_model(ms@);
                        ms.insert(0, m);
                        proof {
                            assert(members_model(ms@) =~= seq![(ms@[0].0@, ms@[0].1@)] + msg);
                        }
                        Some((ms, j4))
                    },
                }
            } else {
                let mut ms: Vec<(Vec<u8>, JsonValue)> = Vec::new();
                ms.push(m);
                proof {
                    assert(members_model(ms@) =~= seq![(ms@[0].0@, ms@[0].1@)]);
                }
                Some((ms, j2))
            }
        },
    }
}

/// A complete JSON document that is one flat object: optional whitespace,
/// `{`, an optional member list, `}`, optional whitespace, end of input.
/// The members are returned in source order, duplicates included.
pub open spec fn parse_object(s: Seq<u8>) -> Option<Seq<(Seq<u8>, JsonValueModel)>> {
    let i0 = ws_end(s, 0);
    if i0 < s.len() && s[i0] == 123 {
        let i1 = ws_end(s, i0 + 1);
        if i1 < s.len() && s[i1] == 125 {
            if ws_end(s, i1 + 1) == s.len() {
                Some(seq![])
            } else {
                None
            }
        } else {
            match members_at(s, i1) {
                None => None,
                Some((ms, j)) => {
                    if j < s.len() && s[j] == 125 {
                        if ws_end(s, j + 1) == s.len() {
                            Some(ms)
                        } else {
                            None
                        }
                    } else {
                        None
                    }
                },
            }
        }
    } else {
        None
    }
}

/// Parses a complete JSON object document into its member list.
pub fn parse_object_exec(s: &[u8]) -> (r: Option<Vec<(Vec<u8>, JsonValue)>>)
    ensures
        (match r {
            Some(ms) => Some(members_model(ms@)),
            None => None,
        }) == parse_object(s@),
{
    let i0 = skip_ws(s, 0);
    if !(i0 < s.len() && s[i0] == 123) {
        return None;
    }
    let i1 = skip_ws(s, i0 + 1);
    if i1 < s.len() && s[i1] == 125 {
        if skip_ws(s, i1 + 1) == s.len() {
            let ms: Vec<(Vec<u8>, JsonValue)> = Vec::new();
            proof {
                assert(members_model(ms@) =~= Seq::<(Seq<u8>, JsonValueModel)>::empty());
            }
            Some(ms)
        } else {
            None
        }
    } else {
        match members_at_exec(s, i1) {
            None => None,
            Some((ms, j)) => {
                if j < s.len() && s[j] == 125 {
                    if skip_ws(s, j + 1) == s.len() {
                        Some(ms)
                    } else {
                        None
                    }
                } else {
                    None
                }
            },
        }
    }
}

} // verus!
