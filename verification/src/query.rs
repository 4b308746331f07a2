//! The query-string source and its four extraction variants.
//!
//! The raw query string is split on `&` into non-empty pieces, each piece
//! is split at its first `=` into a key and a value (a piece without `=` is
//! a key with an empty value), and key and value are percent-decoded
//! independently. Duplicate keys resolve to the last value, matching common
//! web convention. The four variants — required shape, optional wrapper,
//! optional per field, and passthrough mapping — all read this one parse.

use vstd::prelude::*;
use vstd::utf8::{decode_utf8, valid_utf8};

use crate::failure::{missing, mismatch, ExtractionFailure, FailureModel, FailureReason};
use crate::request::{query_of, Request, RequestModel};
use crate::shapes::{SubjectArgs, SubjectArgsModel, SubjectArgsOpt, SubjectArgsOptModel};
use crate::text::{
    bytes_eq, copy_range, parse_i32, pct_decode, spec_parse_i32, string_from_utf8,
};

verus! {

/// The `&`-separated pieces of `s` when the piece currently being read
/// holds `cur`: empty pieces are dropped.
pub open spec fn pieces_from(s: Seq<u8>, cur: Seq<u8>) -> Seq<Seq<u8>>
    decreases s.len(),
{
    if s.len() == 0 {
        if cur.len() == 0 {
            seq![]
        } else {
            seq![cur]
        }
    } else if s[0] == 38 {
        if cur.len() == 0 {
            pieces_from(s.skip(1), Seq::empty())
        } else {
            seq![cur] + pieces_from(s.skip(1), Seq::empty())
        }
    } else {
        pieces_from(s.skip(1), cur.push(s[0]))
    }
}

/// The non-empty `&`-separated pieces of a raw query string.
pub open spec fn pieces(s: Seq<u8>) -> Seq<Seq<u8>> {
    pieces_from(s, Seq::empty())
}

/// A piece split at its first `=`: the key before it, the value after it.
/// A piece without `=` is all key, with an empty value.
pub open spec fn pair_of(p: Seq<u8>) -> (Seq<u8>, Seq<u8>)
    decreases p.len(),
{
    if p.len() == 0 {
        (Seq::empty(), Seq::empty())
    } else if p[0] == 61 {
        (Seq::empty(), p.skip(1))
    } else {
        let kv = pair_of(p.skip(1));
        (seq![p[0]] + kv.0, kv.1)
    }
}

/// All key/value pairs of a raw query string, in order of appearance, key
/// and value percent-decoded independently.
pub open spec fn query_pairs(q: Seq<u8>) -> Seq<(Seq<u8>, Seq<u8>)> {
    pieces(q).map(|i: int, p: Seq<u8>| (pct_decode(pair_of(p).0), pct_decode(pair_of(p).1)))
}

/// The value of the last pair carrying `key`, if any: duplicate keys
/// resolve to the last value.
pub open spec fn lookup_last(ps: Seq<(Seq<u8>, Seq<u8>)>, key: Seq<u8>) -> Option<Seq<u8>>
    decreases ps.len(),
{
    if ps.len() == 0 {
        None
    } else if ps.last().0 == key {
        Some(ps.last().1)
    } else {
        lookup_last(ps.drop_last(), key)
    }
}

/// Ghost image of an executable pair list.
pub open spec fn pairs_model(ps: Seq<(Vec<u8>, Vec<u8>)>) -> Seq<(Seq<u8>, Seq<u8>)> {
    ps.map(|i: int, p: (Vec<u8>, Vec<u8>)| (p.0@, p.1@))
}

/// Ghost image of a list of byte strings.
pub open spec fn vecs_model(vs: Seq<Vec<u8>>) -> Seq<Seq<u8>> {
    vs.map(|i: int, v: Vec<u8>| v@)
}

/// Splits a raw query string into its non-empty `&`-separated pieces.
fn split_pieces(s: &[u8]) -> (r: Vec<Vec<u8>>)
    ensures
        vecs_model(r@) == pieces(s@),
{
    let mut done: Vec<Vec<u8>> = Vec::new();
    let mut cur: Vec<u8> = Vec::new();
    let mut i: usize = 0;
    proof {
        assert(s@.skip(0) =~= s@);
    }
    while i < s.len()
        invariant
            i <= s.len(),
            pieces(s@) == vecs_model(done@) + pieces_from(s@.skip(i as int), cur@),
        decreases s.len() - i,
    {
        let ghost pre = vecs_model(done@);
        let ghost curg = cur@;
        let b = s[i];
        proof {
            assert(s@.skip(i as int).skip(1) =~= s@.skip(i as int + 1));
        }
        if b == 38 {
            if cur.len() > 0 {
                done.push(cur);
                cur = Vec::new();
                proof {
                    assert(pieces_from(s@.skip(i as int), curg) == seq![curg] + pieces_from(
                        s@.skip(i as int + 1),
                        Seq::empty(),
                    ));
                    assert(vecs_model(done@) =~= pre.push(curg));
                    assert(cur@ =~= Seq::<u8>::empty());
                    assert(pre + (seq![curg] + pieces_from(s@.skip(i as int + 1), cur@))
                        =~= vecs_model(done@) + pieces_from(s@.skip(i as int + 1), cur@));
                }
            } else {
                proof {
                    assert(curg =~= Seq::<u8>::empty());
                    assert(pieces_from(s@.skip(i as int), curg) == pieces_from(
                        s@.skip(i as int + 1),
                        Seq::empty(),
                    ));
                }
            }
        } else {
            cur.push(b);
            proof {
                assert(cur@ == curg.push(b));
                assert(pieces_from(s@.skip(i as int), curg) == pieces_from(
                    s@.skip(i as int + 1),
                    curg.push(b),
                ));
            }
        }
        i = i + 1;
    }
    proof {
        assert(s@.skip(s@.len() as int) =~= Seq::<u8>::empty());
    }
    if cur.len() > 0 {
        let ghost pre = vecs_model(done@);
        let ghost curg = cur@;
        done.push(cur);
        proof {
            assert(vecs_model(done@) =~= pre.push(curg));
            assert(pre + seq![curg] =~= vecs_model(done@));
        }
    } else {
        proof {
            assert(cur@ =~= Seq::<u8>::empty());
            assert(vecs_model(done@) + Seq::<Seq<u8>>::empty() =~= vecs_model(done@));
        }
    }
    done
}

proof fn lemma_pair_of_at(p: Seq<u8>, j: int)
    requires
        0 <= j <= p.len(),
        forall|t: int| 0 <= t < j ==> p[t] != 61,
        j < p.len() ==> p[j] == 61,
    ensures
        pair_of(p) == if j < p.len() {
            (p.take(j), p.skip(j + 1))
        } else {
            (p, Seq::<u8>::empty())
        },
    decreases j,
{
    if p.len() == 0 {
    } else if j == 0 {
        if p.len() > 0 && p[0] != 61 {
            assert(pair_of(p) == (seq![p[0]] + pair_of(p.skip(1)).0, pair_of(p.skip(1)).1));
        }
        assert(p.take(0) =~= Seq::<u8>::empty());
    } else {
        lemma_pair_of_at(p.skip(1), j - 1);
        if j < p.len() {
            assert(p.skip(1).take(j - 1) =~= p.take(j).skip(1));
            assert(seq![p[0]] + p.take(j).skip(1) =~= p.take(j));
            assert(p.skip(1).skip(j) =~= p.skip(j + 1));
        } else {
            assert(seq![p[0]] + p.skip(1) =~= p);
        }
    }
}

/// Splits one piece at its first `=` and percent-decodes both halves.
fn decode_piece(p: &[u8]) -> (r: (Vec<u8>, Vec<u8>))
    ensures
        (r.0@, r.1@) == (pct_decode(pair_of(p@).0), pct_decode(pair_of(p@).1)),
{
    let mut j: usize = 0;
    while j < p.len() && p[j] != 61
        invariant
            j <= p.len(),
            forall|t: int| 0 <= t < j ==> p@[t] != 61,
        decreases p.len() - j,
    {
        j = j + 1;
    }
    proof {
        lemma_pair_of_at(p@, j as int);
    }
    if j < p.len() {
        let k = copy_range(p, 0, j);
        let v = copy_range(p, j + 1, p.len());
        proof {
            assert(p@.subrange(0, j as int) =~= p@.take(j as int));
            assert(p@.subrange(j as int + 1, p@.len() as int) =~= p@.skip(j as int + 1));
        }
        (pct_decode_pair(k), pct_decode_pair(v))
    } else {
        let k = copy_range(p, 0, p.len());
        proof {
            assert(p@.subrange(0, p@.len() as int) =~= p@);
            assert(pct_decode(Seq::<u8>::empty()) =~= Seq::<u8>::empty());
        }
        (pct_decode_pair(k), Vec::new())
    }
}

/// Percent-decodes an owned byte string.
fn pct_decode_pair(v: Vec<u8>) -> (r: Vec<u8>)
    ensures
        r@ == pct_decode(v@),
{
    crate::text::pct_decode_exec(v.as_slice())
}

/// Parses a raw query string into its decoded key/value pairs, in order.
pub fn parse_query(q: &[u8]) -> (r: Vec<(Vec<u8>, Vec<u8>)>)
    ensures
        pairs_model(r@) == query_pairs(q@),
{
    let ps = split_pieces(q);
    let mut out: Vec<(Vec<u8>, Vec<u8>)> = Vec::new();
    let mut i: usize = 0;
    while i < ps.len()
        invariant
            i <= ps.len(),
            vecs_model(ps@) == pieces(q@),
            pairs_model(out@) == query_pairs(q@).take(i as int),
        decreases ps.len() - i,
    {
        let ghost pre = pairs_model(out@);
        let kv = decode_piece(ps[i].as_slice());
        out.push(kv);
        proof {
            assert(vecs_model(ps@)[i as int] == ps@[i as int]@);
            assert(pairs_model(out@) =~= pre.push((kv.0@, kv.1@)));
            assert(pairs_model(out@) =~= query_pairs(q@).take(i as int + 1));
        }
        i = i + 1;
    }
    proof {
        assert(query_pairs(q@).take(vecs_model(ps@).len() as int) =~= query_pairs(q@));
    }
    out
}

/// Looks up the last value carried by `key` in a decoded pair list.
pub fn lookup_last_exec(pairs: &Vec<(Vec<u8>, Vec<u8>)>, key: &[u8]) -> (r: Option<Vec<u8>>)
    ensures
        (match r {
            Some(v) => Some(v@),
            None => None,
        }) == lookup_last(pairs_model(pairs@), key@),
{
    let mut res: Option<Vec<u8>> = None;
    let mut i: usize = 0;
    proof {
        assert(pairs_model(pairs@).take(0) =~= Seq::<(Seq<u8>, Seq<u8>)>::empty());
    }
    while i < pairs.len()
        invariant
            i <= pairs.len(),
            (match res {
                Some(v) => Some(v@),
                None => None,
            }) == lookup_last(pairs_model(pairs@).take(i as int), key@),
        decreases pairs.len() - i,
    {
        proof {
            assert(pairs_model(pairs@).take(i as int + 1).drop_last() =~= pairs_model(
                pairs@,
            ).take(i as int));
            assert(pairs_model(pairs@).take(i as int + 1).last() == pairs_model(pairs@)[i as int]);
        }
        if bytes_eq(pairs[i].0.as_slice(), key) {
            let v = copy_range(pairs[i].1.as_slice(), 0, pairs[i].1.len());
            proof {
                assert(v@ =~= pairs[i as int].1@);
            }
            res = Some(v);
        }
        i = i + 1;
    }
    proof {
        assert(pairs_model(pairs@).take(pairs@.len() as int) =~= pairs_model(pairs@));
    }
    res
}


/// The declared field name `page`.
pub open spec fn key_page() -> Seq<u8> {
    seq![112u8, 97u8, 103u8, 101u8]
}

/// The declared field name `keyword`.
pub open spec fn key_keyword() -> Seq<u8> {
    seq![107u8, 101u8, 121u8, 119u8, 111u8, 114u8, 100u8]
}

fn key_page_exec() -> (r: Vec<u8>)
    ensures
        r@ == key_page(),
{
    let v = vec![112u8, 97u8, 103u8, 101u8];
    proof {
        assert(v@ =~= key_page());
    }
    v
}

fn key_keyword_exec() -> (r: Vec<u8>)
    ensures
        r@ == key_keyword(),
{
    let v = vec![107u8, 101u8, 121u8, 119u8, 111u8, 114u8, 100u8];
    proof {
        assert(v@ =~= key_keyword());
    }
    v
}

/// Required-shape extraction of `SubjectArgs`: `page` and `keyword` must
/// both be present and coercible; the first declared field that cannot be
/// produced names the failure.
pub open spec fn spec_subject_args(r: RequestModel) -> Result<SubjectArgsModel, FailureModel> {
    let ps = query_pairs(query_of(r));
    match lookup_last(ps, key_page()) {
        None => Err(missing(Some(key_page()))),
        Some(pv) => match spec_parse_i32(pv) {
            None => Err(mismatch(key_page(), pv)),
            Some(page) => match lookup_last(ps, key_keyword()) {
                None => Err(missing(Some(key_keyword()))),
                Some(kv) => if valid_utf8(kv) {
                    Ok(SubjectArgsModel { page: page as int, keyword: decode_utf8(kv) })
                } else {
                    Err(mismatch(key_keyword(), kv))
                },
            },
        },
    }
}

/// Ghost image of a required-shape extraction result.
pub open spec fn subject_result_model(r: Result<SubjectArgs, ExtractionFailure>) -> Result<
    SubjectArgsModel,
    FailureModel,
> {
    match r {
        Ok(v) => Ok(v@),
        Err(e) => Err(e@),
    }
}

/// Parses the request's query string into decoded pairs; an absent query
/// string reads as an empty one.
fn request_query_pairs(req: &Request) -> (r: Vec<(Vec<u8>, Vec<u8>)>)
    ensures
        pairs_model(r@) == query_pairs(query_of(req@)),
{
    match &req.query {
        Some(q) => parse_query(q.as_slice()),
        None => {
            let r: Vec<(Vec<u8>, Vec<u8>)> = Vec::new();
            proof {
                assert(pairs_model(r@) =~= query_pairs(query_of(req@)));
            }
            r
        },
    }
}

/// Extracts the required query shape `{page: i32, keyword: String}`.
pub fn extract_subject_args(req: &Request) -> (r: Result<SubjectArgs, ExtractionFailure>)
    ensures
        subject_result_model(r) == spec_subject_args(req@),
{
    let pairs = request_query_pairs(req);
    let pk = key_page_exec();
    match lookup_last_exec(&pairs, pk.as_slice()) {
        None => Err(
            ExtractionFailure {
                field: Some(pk),
                observed: None,
                reason: FailureReason::MissingRequiredField,
            },
        ),
        Some(pv) => match parse_i32(pv.as_slice()) {
            None => Err(
                ExtractionFailure {
                    field: Some(pk),
                    observed: Some(pv),
                    reason: FailureReason::TypeMismatch,
                },
            ),
            Some(page) => {
                let kk = key_keyword_exec();
                match lookup_last_exec(&pairs, kk.as_slice()) {
                    None => Err(
                        ExtractionFailure {
                            field: Some(kk),
                            observed: None,
                            reason: FailureReason::MissingRequiredField,
                        },
                    ),
                    Some(kv) => {
                        let raw = copy_range(kv.as_slice(), 0, kv.len());
                        proof {
                            assert(raw@ =~= kv@);
                        }
                        match string_from_utf8(raw) {
                            Some(s) => Ok(SubjectArgs { page, keyword: s }),
                            None => Err(
                                ExtractionFailure {
                                    field: Some(kk),
                                    observed: Some(kv),
                                    reason: FailureReason::TypeMismatch,
                                },
                            ),
                        }
                    },
                }
            },
        },
    }
}

/// Optional-wrapper extraction: when the query string does not read as the
/// required shape, the result is the present-but-empty indicator `None`
/// rather than a failure. This variant never fails.
pub open spec fn spec_subject_args_optional(r: RequestModel) -> Option<SubjectArgsModel> {
    match spec_subject_args(r) {
        Ok(m) => Some(m),
        Err(_) => None,
    }
}

/// Extracts the optional-wrapper query shape `Option<SubjectArgs>`.
pub fn extract_subject_args_optional(req: &Request) -> (r: Option<SubjectArgs>)
    ensures
        (match r {
            Some(v) => Some(v@),
            None => None,
        }) == spec_subject_args_optional(req@),
{
    match extract_subject_args(req) {
        Ok(v) => Some(v),
        Err(_) => None,
    }
}

/// Per-field-optional extraction of `SubjectArgsOpt`: an absent field
/// yields its absent state, never a failure; a present field that fails
/// coercion still fails the extraction.
pub open spec fn spec_subject_args_opt(r: RequestModel) -> Result<SubjectArgsOptModel, FailureModel> {
    let ps = query_pairs(query_of(r));
    let page_r = match lookup_last(ps, key_page()) {
        None => Ok(None::<int>),
        Some(pv) => match spec_parse_i32(pv) {
            None => Err(mismatch(key_page(), pv)),
            Some(p) => Ok(Some(p as int)),
        },
    };
    match page_r {
        Err(e) => Err(e),
        Ok(page) => match lookup_last(ps, key_keyword()) {
            None => Ok(SubjectArgsOptModel { page, keyword: None }),
            Some(kv) => if valid_utf8(kv) {
                Ok(SubjectArgsOptModel { page, keyword: Some(decode_utf8(kv)) })
            } else {
                Err(mismatch(key_keyword(), kv))
            },
        },
    }
}

/// Ghost image of a per-field-optional extraction result.
pub open spec fn subject_opt_result_model(r: Result<SubjectArgsOpt, ExtractionFailure>) -> Result<
    SubjectArgsOptModel,
    FailureModel,
> {
    match r {
        Ok(v) => Ok(v@),
        Err(e) => Err(e@),
    }
}

/// Extracts the per-field-optional query shape
/// `{page: Option<i32>, keyword: Option<String>}`.
pub fn extract_subject_args_opt(req: &Request) -> (r: Result<SubjectArgsOpt, ExtractionFailure>)
    ensures
        subject_opt_result_model(r) == spec_subject_args_opt(req@),
{
    let pairs = request_query_pairs(req);
    let pk = key_page_exec();
    let page: Option<i32> = match lookup_last_exec(&pairs, pk.as_slice()) {
        None => None,
        Some(pv) => match parse_i32(pv.as_slice()) {
            None => {
                return Err(
                    ExtractionFailure {
                        field: Some(pk),
                        observed: Some(pv),
                        reason: FailureReason::TypeMismatch,
                    },
                );
            },
            Some(p) => Some(p),
        },
    };
    let kk = key_keyword_exec();
    match lookup_last_exec(&pairs, kk.as_slice()) {
        None => Ok(SubjectArgsOpt { page, keyword: None }),
        Some(kv) => {
            let raw = copy_range(kv.as_slice(), 0, kv.len());
            proof {
                assert(raw@ =~= kv@);
            }
            match string_from_utf8(raw) {
                Some(s) => Ok(SubjectArgsOpt { page, keyword: Some(s) }),
                None => Err(
                    ExtractionFailure {
                        field: Some(kk),
                        observed: Some(kv),
                        reason: FailureReason::TypeMismatch,
                    },
                ),
            }
        },
    }
}


/// The keys of a decoded pair list, in order of first appearance, each
/// once.
pub open spec fn first_keys(ps: Seq<(Seq<u8>, Seq<u8>)>) -> Seq<Seq<u8>>
    decreases ps.len(),
{
    if ps.len() == 0 {
        seq![]
    } else {
        let r = first_keys(ps.drop_last());
        if r.contains(ps.last().0) {
            r
        } else {
            r.push(ps.last().0)
        }
    }
}

/// The value that last-value-wins assigns to `key`, empty when the key
/// never appears.
pub open spec fn last_val(ps: Seq<(Seq<u8>, Seq<u8>)>, key: Seq<u8>) -> Seq<u8> {
    match lookup_last(ps, key) {
        Some(v) => v,
        None => Seq::empty(),
    }
}

/// The passthrough mapping of a decoded pair list: its keys in order of
/// first appearance, each carrying its last value.
pub open spec fn passthrough_of(ps: Seq<(Seq<u8>, Seq<u8>)>) -> Seq<(Seq<u8>, Seq<u8>)> {
    first_keys(ps).map(|i: int, k: Seq<u8>| (k, last_val(ps, k)))
}

/// Each passthrough entry pairs a first-appearance key with its last value.
pub proof fn lemma_passthrough_of_index(ps: Seq<(Seq<u8>, Seq<u8>)>)
    ensures
        passthrough_of(ps).len() == first_keys(ps).len(),
        forall|j: int|
            0 <= j < first_keys(ps).len() ==> #[trigger] passthrough_of(ps)[j] == (
                first_keys(ps)[j],
                last_val(ps, first_keys(ps)[j]),
            ),
{
}

/// Passthrough extraction: the open string-to-string mapping holding every
/// decoded key of the query string, in order of first appearance, each
/// carrying its last value. No coercion is applied and no key can be
/// missing or unexpected, so this extraction cannot fail.
pub open spec fn spec_query_map(q: Seq<u8>) -> Seq<(Seq<u8>, Seq<u8>)> {
    passthrough_of(query_pairs(q))
}

/// The keys of `first_keys` are exactly the keys appearing in the list.
pub proof fn lemma_first_keys_complete(ps: Seq<(Seq<u8>, Seq<u8>)>, k: Seq<u8>)
    ensures
        first_keys(ps).contains(k) <==> (exists|i: int|
            0 <= i < ps.len() && #[trigger] ps[i].0 == k),
    decreases ps.len(),
{
    if ps.len() == 0 {
    } else {
        lemma_first_keys_complete(ps.drop_last(), k);
        if first_keys(ps).contains(k) {
            if ps.last().0 == k {
                assert(ps[ps.len() - 1].0 == k);
            } else {
                assert(first_keys(ps.drop_last()).contains(k));
                let i = choose|i: int| 0 <= i < ps.drop_last().len() && #[trigger] ps.drop_last()[i].0 == k;
                assert(ps[i].0 == k);
            }
        }
        if exists|i: int| 0 <= i < ps.len() && #[trigger] ps[i].0 == k {
            let i = choose|i: int| 0 <= i < ps.len() && #[trigger] ps[i].0 == k;
            if i == ps.len() - 1 {
                let r = first_keys(ps.drop_last());
                if r.contains(k) {
                    assert(first_keys(ps).contains(k));
                } else {
                    assert(first_keys(ps) == r.push(k));
                    assert(first_keys(ps)[r.len() as int] == k);
                }
            } else {
                assert(ps.drop_last()[i].0 == k);
                assert(first_keys(ps.drop_last()).contains(k));
                let j = choose|j: int|
                    0 <= j < first_keys(ps.drop_last()).len() && first_keys(ps.drop_last())[j] == k;
                assert(first_keys(ps)[j] == k);
            }
        }
    }
}

/// `first_keys` never repeats a key.
pub proof fn lemma_first_keys_distinct(ps: Seq<(Seq<u8>, Seq<u8>)>)
    ensures
        forall|j1: int, j2: int|
            0 <= j1 < j2 < first_keys(ps).len() ==> #[trigger] first_keys(ps)[j1]
                != #[trigger] first_keys(ps)[j2],
    decreases ps.len(),
{
    if ps.len() > 0 {
        lemma_first_keys_distinct(ps.drop_last());
        let r = first_keys(ps.drop_last());
        if !r.contains(ps.last().0) {
            assert(forall|j: int| 0 <= j < r.len() ==> #[trigger] r[j] != ps.last().0);
        }
    }
}

/// `lookup_last` answers exactly for the keys appearing in the list.
pub proof fn lemma_lookup_last_some(ps: Seq<(Seq<u8>, Seq<u8>)>, k: Seq<u8>)
    ensures
        (lookup_last(ps, k) is Some) <==> (exists|i: int|
            0 <= i < ps.len() && #[trigger] ps[i].0 == k),
    decreases ps.len(),
{
    if ps.len() == 0 {
    } else {
        lemma_lookup_last_some(ps.drop_last(), k);
        if ps.last().0 == k {
            assert(ps[ps.len() - 1].0 == k);
        } else {
            if lookup_last(ps, k) is Some {
                let i = choose|i: int|
                    0 <= i < ps.drop_last().len() && #[trigger] ps.drop_last()[i].0 == k;
                assert(ps[i].0 == k);
            }
            if exists|i: int| 0 <= i < ps.len() && #[trigger] ps[i].0 == k {
                let i = choose|i: int| 0 <= i < ps.len() && #[trigger] ps[i].0 == k;
                assert(ps.drop_last()[i].0 == k);
            }
        }
    }
}

/// Passthrough map completeness, per key: `k` appears among the decoded
/// pairs of the query string exactly when the passthrough mapping holds an
/// entry for `k`.
pub proof fn lemma_passthrough_key(q: Seq<u8>, k: Seq<u8>)
    ensures
        (exists|i: int| 0 <= i < query_pairs(q).len() && #[trigger] query_pairs(q)[i].0 == k)
            <==> (exists|j: int|
            0 <= j < spec_query_map(q).len() && #[trigger] spec_query_map(q)[j].0 == k),
{
    let ps = query_pairs(q);
    let fk = first_keys(ps);
    lemma_first_keys_complete(ps, k);
    lemma_passthrough_of_index(ps);
    if exists|i: int| 0 <= i < ps.len() && #[trigger] ps[i].0 == k {
        let j = choose|j: int| 0 <= j < fk.len() && fk[j] == k;
        assert(spec_query_map(q)[j].0 == k);
    }
    if exists|j: int| 0 <= j < spec_query_map(q).len() && #[trigger] spec_query_map(q)[j].0 == k {
        let j = choose|j: int|
            0 <= j < spec_query_map(q).len() && #[trigger] spec_query_map(q)[j].0 == k;
        assert(fk[j] == k);
        assert(fk.contains(k));
    }
}

/// Passthrough map soundness: the passthrough mapping never repeats a key,
/// and every entry carries the value that last-value-wins assigns its key
/// in the raw query string.
pub proof fn lemma_passthrough_entries(q: Seq<u8>)
    ensures
        forall|j1: int, j2: int|
            0 <= j1 < j2 < spec_query_map(q).len() ==> #[trigger] spec_query_map(q)[j1].0
                != #[trigger] spec_query_map(q)[j2].0,
        forall|j: int|
            0 <= j < spec_query_map(q).len() ==> lookup_last(query_pairs(q), spec_query_map(q)[j].0)
                == Some(#[trigger] spec_query_map(q)[j].1),
{
    let ps = query_pairs(q);
    let fk = first_keys(ps);
    lemma_first_keys_distinct(ps);
    lemma_passthrough_of_index(ps);
    assert forall|j: int| 0 <= j < spec_query_map(q).len() implies lookup_last(
        ps,
        spec_query_map(q)[j].0,
    ) == Some(#[trigger] spec_query_map(q)[j].1) by {
        let k = fk[j];
        assert(fk.contains(k));
        lemma_first_keys_complete(ps, k);
        lemma_lookup_last_some(ps, k);
        assert(spec_query_map(q)[j] == (k, last_val(ps, k)));
    }
}

/// Finds the index of `key` among the entries built so far.
fn find_key(out: &Vec<(Vec<u8>, Vec<u8>)>, key: &[u8]) -> (r: Option<usize>)
    ensures
        match r {
            Some(j) => j < out@.len() && out@[j as int].0@ == key@,
            None => forall|t: int| 0 <= t < out@.len() ==> (#[trigger] out@[t].0)@ != key@,
        },
{
    let mut i: usize = 0;
    while i < out.len()
        invariant
            i <= out@.len(),
            forall|t: int| 0 <= t < i ==> (#[trigger] out@[t].0)@ != key@,
        decreases out.len() - i,
    {
        if bytes_eq(out[i].0.as_slice(), key) {
            return Some(i);
        }
        i = i + 1;
    }
    None
}

/// Extracts the passthrough mapping: every decoded key of the query string
/// with its last value, in order of first appearance, unknown keys
/// included, with no coercion applied. This extraction cannot fail.
pub fn extract_query_map(req: &Request) -> (r: Vec<(Vec<u8>, Vec<u8>)>)
    ensures
        pairs_model(r@) == spec_query_map(query_of(req@)),
{
    let pairs = request_query_pairs(req);
    let ghost pm = pairs_model(pairs@);
    let mut out: Vec<(Vec<u8>, Vec<u8>)> = Vec::new();
    let mut i: usize = 0;
    proof {
        assert(pm.take(0) =~= Seq::<(Seq<u8>, Seq<u8>)>::empty());
        assert(pairs_model(out@) =~= passthrough_of(pm.take(0)));
    }
    while i < pairs.len()
        invariant
            i <= pairs.len(),
            pm == pairs_model(pairs@),
            pairs_model(out@) == passthrough_of(pm.take(i as int)),
        decreases pairs.len() - i,
    {
        let ghost pre = pairs_model(out@);
        let ghost fk = first_keys(pm.take(i as int));
        let ghost fk1 = first_keys(pm.take(i as int + 1));
        proof {
            assert(pm.take(i as int + 1).drop_last() =~= pm.take(i as int));
            assert(pm.take(i as int + 1).last() == pm[i as int]);
            lemma_first_keys_distinct(pm.take(i as int));
            lemma_passthrough_of_index(pm.take(i as int));
            lemma_passthrough_of_index(pm.take(i as int + 1));
        }
        let key = copy_range(pairs[i].0.as_slice(), 0, pairs[i].0.len());
        let val = copy_range(pairs[i].1.as_slice(), 0, pairs[i].1.len());
        proof {
            assert(key@ =~= pm[i as int].0);
            assert(val@ =~= pm[i as int].1);
        }
        match find_key(&out, key.as_slice()) {
            Some(j) => {
                proof {
                    assert(pre[j as int].0 == key@);
                    assert(pre[j as int] == (fk[j as int], last_val(pm.take(i as int), fk[j as int])));
                    assert(fk[j as int] == key@);
                    assert(fk.contains(key@));
                    assert(fk1 == fk);
                }
                let e = out.remove(j);
                out.insert(j, (e.0, val));
                proof {
                    assert forall|t: int| 0 <= t < fk1.len() implies pairs_model(out@)[t] == (
                        fk1[t],
                        last_val(pm.take(i as int + 1), fk1[t]),
                    ) by {
                        if t == j {
                            assert(pairs_model(out@)[t] == (key@, val@));
                            assert(last_val(pm.take(i as int + 1), key@) == pm[i as int].1);
                        } else {
                            assert(pairs_model(out@)[t] == pre[t]);
                            assert(pre[t] == (fk[t], last_val(pm.take(i as int), fk[t])));
                            assert(fk1[t] != key@);
                            assert(last_val(pm.take(i as int + 1), fk1[t]) == last_val(
                                pm.take(i as int),
                                fk1[t],
                            ));
                        }
                    }
                    assert(pairs_model(out@) =~= passthrough_of(pm.take(i as int + 1)));
                }
            },
            None => {
                proof {
                    assert forall|t: int| 0 <= t < fk.len() implies fk[t] != key@ by {
                        assert(pre[t] == (fk[t], last_val(pm.take(i as int), fk[t])));
                        assert(pre[t].0 == (out@[t].0)@);
                    }
                    assert(!fk.contains(key@));
                    assert(fk1 == fk.push(key@));
                }
                out.push((key, val));
                proof {
                    assert forall|t: int| 0 <= t < fk1.len() implies pairs_model(out@)[t] == (
                        fk1[t],
                        last_val(pm.take(i as int + 1), fk1[t]),
                    ) by {
                        if t == fk.len() {
                            assert(pairs_model(out@)[t] == (key@, val@));
                            assert(last_val(pm.take(i as int + 1), key@) == pm[i as int].1);
                        } else {
                            assert(pairs_model(out@)[t] == pre[t]);
                            assert(pre[t] == (fk[t], last_val(pm.take(i as int), fk[t])));
                            assert(fk1[t] == fk[t]);
                            assert(fk1[t] != key@);
                            assert(last_val(pm.take(i as int + 1), fk1[t]) == last_val(
                                pm.take(i as int),
                                fk1[t],
                            ));
                        }
                    }
                    assert(pairs_model(out@) =~= passthrough_of(pm.take(i as int + 1)));
                }
            },
        }
        i = i + 1;
    }
    proof {
        assert(pm.take(pairs@.len() as int) =~= pm);
    }
    out
}

} // verus!
