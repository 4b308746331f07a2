//! The body source: decoding body bytes into a declared record under the
//! declared content-type expectation.
//!
//! A form-encoded body is read with the same key/value grammar as the
//! query string, then coerced field by field exactly as the query's
//! required-shape mode. A JSON body is read with the object grammar of
//! [`crate::json`] and mapped structurally onto the record, field names
//! matching exactly. Content-type enforcement is on: a body whose reported
//! encoding is not the declared expectation fails with
//! `UnsupportedContentType`, and an absent body with
//! `MissingRequiredField`. Duplicate keys resolve to the last value in
//! both encodings, matching the query source's policy.

use vstd::prelude::*;
use vstd::utf8::{decode_utf8, valid_utf8};

use crate::failure::{missing, mismatch, ExtractionFailure, FailureModel, FailureReason};
use crate::json::{parse_object, parse_object_exec, members_model, JsonValue, JsonValueModel};
use crate::query::{lookup_last, lookup_last_exec, pairs_model, parse_query, query_pairs};
use crate::request::{BodyEncoding, Request, RequestModel};
use crate::shapes::{CreateUser, CreateUserModel};
use crate::text::{bytes_eq, copy_range, parse_u8, spec_parse_u8, string_from_utf8};

verus! {

/// The declared field name `username`.
pub open spec fn key_username() -> Seq<u8> {
    seq![117u8, 115u8, 101u8, 114u8, 110u8, 97u8, 109u8, 101u8]
}

/// The declared field name `email`.
pub open spec fn key_email() -> Seq<u8> {
    seq![101u8, 109u8, 97u8, 105u8, 108u8]
}

/// The declared field name `level`.
pub open spec fn key_level() -> Seq<u8> {
    seq![108u8, 101u8, 118u8, 101u8, 108u8]
}

fn key_username_exec() -> (r: Vec<u8>)
    ensures
        r@ == key_username(),
{
    let v = vec![117u8, 115u8, 101u8, 114u8, 110u8, 97u8, 109u8, 101u8];
    proof {
        assert(v@ =~= key_username());
    }
    v
}

fn key_email_exec() -> (r: Vec<u8>)
    ensures
        r@ == key_email(),
{
    let v = vec![101u8, 109u8, 97u8, 105u8, 108u8];
    proof {
        assert(v@ =~= key_email());
    }
    v
}

fn key_level_exec() -> (r: Vec<u8>)
    ensures
        r@ == key_level(),
{
    let v = vec![108u8, 101u8, 118u8, 101u8, 108u8];
    proof {
        assert(v@ =~= key_level());
    }
    v
}

/// The body's reported encoding is `enc`.
pub open spec fn has_body(r: RequestModel, enc: BodyEncoding) -> bool {
    match r.body {
        Some(b) => b.encoding == enc,
        None => false,
    }
}

/// The decoded pairs of a form-encoded body.
pub open spec fn form_pairs(r: RequestModel) -> Seq<(Seq<u8>, Seq<u8>)> {
    match r.body {
        Some(b) => query_pairs(b.bytes),
        None => Seq::empty(),
    }
}

/// The member list of a JSON body.
pub open spec fn json_members(r: RequestModel) -> Option<Seq<(Seq<u8>, JsonValueModel)>> {
    match r.body {
        Some(b) => parse_object(b.bytes),
        None => None,
    }
}

/// Field coercion of `CreateUser` from a decoded pair list: `username`,
/// `email`, then `level`, each required; strings must be valid UTF-8 and
/// the level a decimal within eight bits.
pub open spec fn spec_create_user_pairs(ps: Seq<(Seq<u8>, Seq<u8>)>) -> Result<
    CreateUserModel,
    FailureModel,
> {
    match lookup_last(ps, key_username()) {
        None => Err(missing(Some(key_username()))),
        Some(u) => if !valid_utf8(u) {
            Err(mismatch(key_username(), u))
        } else {
            match lookup_last(ps, key_email()) {
                None => Err(missing(Some(key_email()))),
                Some(e) => if !valid_utf8(e) {
                    Err(mismatch(key_email(), e))
                } else {
                    match lookup_last(ps, key_level()) {
                        None => Err(missing(Some(key_level()))),
                        Some(l) => match spec_parse_u8(l) {
                            None => Err(mismatch(key_level(), l)),
                            Some(lv) => Ok(
                                CreateUserModel {
                                    username: decode_utf8(u),
                                    email: decode_utf8(e),
                                    level: lv as int,
                                },
                            ),
                        },
                    }
                },
            }
        },
    }
}

/// Form-encoded body extraction of `CreateUser`.
pub open spec fn spec_create_user_form(r: RequestModel) -> Result<CreateUserModel, FailureModel> {
    match r.body {
        None => Err(missing(None)),
        Some(b) => if !(b.encoding is FormUrlEncoded) {
            Err(
                FailureModel {
                    field: None,
                    observed: None,
                    reason: FailureReason::UnsupportedContentType,
                },
            )
        } else {
            spec_create_user_pairs(query_pairs(b.bytes))
        },
    }
}

/// Ghost image of a `CreateUser` extraction result.
pub open spec fn create_user_result_model(r: Result<CreateUser, ExtractionFailure>) -> Result<
    CreateUserModel,
    FailureModel,
> {
    match r {
        Ok(v) => Ok(v@),
        Err(e) => Err(e@),
    }
}

/// Coerces the last value carried by `key` to a required string field.
fn pairs_string_field(ps: &Vec<(Vec<u8>, Vec<u8>)>, key: Vec<u8>) -> (r: Result<
    String,
    ExtractionFailure,
>)
    ensures
        (match r {
            Ok(s) => Ok(s@),
            Err(e) => Err(e@),
        }) == (match lookup_last(pairs_model(ps@), key@) {
            None => Err::<Seq<char>, FailureModel>(missing(Some(key@))),
            Some(v) => if valid_utf8(v) {
                Ok(decode_utf8(v))
            } else {
                Err(mismatch(key@, v))
            },
        }),
{
    match lookup_last_exec(ps, key.as_slice()) {
        None => Err(
            ExtractionFailure {
                field: Some(key),
                observed: None,
                reason: FailureReason::MissingRequiredField,
            },
        ),
        Some(v) => {
            let raw = copy_range(v.as_slice(), 0, v.len());
            proof {
                assert(raw@ =~= v@);
            }
            match string_from_utf8(raw) {
                Some(s) => Ok(s),
                None => Err(
                    ExtractionFailure {
                        field: Some(key),
                        observed: Some(v),
                        reason: FailureReason::TypeMismatch,
                    },
                ),
            }
        },
    }
}

/// Coerces the last value carried by `key` to a required `u8` field.
fn pairs_u8_field(ps: &Vec<(Vec<u8>, Vec<u8>)>, key: Vec<u8>) -> (r: Result<u8, ExtractionFailure>)
    ensures
        (match r {
            Ok(v) => Ok(v as int),
            Err(e) => Err(e@),
        }) == (match lookup_last(pairs_model(ps@), key@) {
            None => Err::<int, FailureModel>(missing(Some(key@))),
            Some(v) => match spec_parse_u8(v) {
                None => Err(mismatch(key@, v)),
                Some(lv) => Ok(lv as int),
            },
        }),
{
    match lookup_last_exec(ps, key.as_slice()) {
        None => Err(
            ExtractionFailure {
                field: Some(key),
                observed: None,
                reason: FailureReason::MissingRequiredField,
            },
        ),
        Some(v) => match parse_u8(v.as_slice()) {
            Some(lv) => Ok(lv),
            None => Err(
                ExtractionFailure {
                    field: Some(key),
                    observed: Some(v),
                    reason: FailureReason::TypeMismatch,
                },
            ),
        },
    }
}

/// Extracts `CreateUser` from a form-encoded body.
pub fn extract_create_user_form(req: &Request) -> (r: Result<CreateUser, ExtractionFailure>)
    ensures
        create_user_result_model(r) == spec_create_user_form(req@),
{
    let body = match &req.body {
        None => {
            return Err(
                ExtractionFailure {
                    field: None,
                    observed: None,
                    reason: FailureReason::MissingRequiredField,
                },
            );
        },
        Some(b) => b,
    };
    match body.encoding {
        BodyEncoding::FormUrlEncoded => {},
        _ => {
            return Err(
                ExtractionFailure {
                    field: None,
                    observed: None,
                    reason: FailureReason::UnsupportedContentType,
                },
            );
        },
    }
    let pairs = parse_query(body.bytes.as_slice());
    let username = match pairs_string_field(&pairs, key_username_exec()) {
        Ok(s) => s,
        Err(e) => {
            return Err(e);
        },
    };
    let email = match pairs_string_field(&pairs, key_email_exec()) {
        Ok(s) => s,
        Err(e) => {
            return Err(e);
        },
    };
    let level = match pairs_u8_field(&pairs, key_level_exec()) {
        Ok(v) => v,
        Err(e) => {
            return Err(e);
        },
    };
    Ok(CreateUser { username, email, level })
}

/// JSON member lookup: duplicate keys resolve to the last member, the same
/// policy as the query source.
pub open spec fn jlookup_last(ms: Seq<(Seq<u8>, JsonValueModel)>, key: Seq<u8>) -> Option<
    JsonValueModel,
>
    decreases ms.len(),
{
    if ms.len() == 0 {
        None
    } else if ms.last().0 == key {
        Some(ms.last().1)
    } else {
        jlookup_last(ms.drop_last(), key)
    }
}

/// Looks up the last JSON member carrying `key` and copies its value.
fn jlookup_last_exec(ms: &Vec<(Vec<u8>, JsonValue)>, key: &[u8]) -> (r: Option<JsonValue>)
    ensures
        (match r {
            Some(v) => Some(v@),
            None => None,
        }) == jlookup_last(members_model(ms@), key@),
{
    let ghost mm = members_model(ms@);
    let mut res: Option<JsonValue> = None;
    let mut i: usize = 0;
    proof {
        assert(mm.take(0) =~= Seq::<(Seq<u8>, JsonValueModel)>::empty());
    }
    while i < ms.len()
        invariant
            i <= ms.len(),
            mm == members_model(ms@),
            (match res {
                Some(v) => Some(v@),
                None => None,
            }) == jlookup_last(mm.take(i as int), key@),
        decreases ms.len() - i,
    {
        proof {
            assert(mm.take(i as int + 1).drop_last() =~= mm.take(i as int));
            assert(mm.take(i as int + 1).last() == mm[i as int]);
        }
        if bytes_eq(ms[i].0.as_slice(), key) {
            let v = match &ms[i].1 {
                JsonValue::Text(t) => {
                    let c = copy_range(t.as_slice(), 0, t.len());
                    proof {
                        assert(c@ =~= t@);
                    }
                    JsonValue::Text(c)
                },
                JsonValue::Int(n) => JsonValue::Int(*n),
            };
            proof {
                assert(v@ == mm[i as int].1);
            }
            res = Some(v);
        }
        i = i + 1;
    }
    proof {
        assert(mm.take(ms@.len() as int) =~= mm);
    }
    res
}

/// Field coercion of `CreateUser` from a JSON member list: `username` and
/// `email` must be strings holding valid UTF-8, `level` an integer within
/// eight bits.
pub open spec fn spec_create_user_members(ms: Seq<(Seq<u8>, JsonValueModel)>) -> Result<
    CreateUserModel,
    FailureModel,
> {
    match jlookup_last(ms, key_username()) {
        None => Err(missing(Some(key_username()))),
        Some(uv) => match uv {
            JsonValueModel::Int(_) => Err(
                FailureModel {
                    field: Some(key_username()),
                    observed: None,
                    reason: FailureReason::TypeMismatch,
                },
            ),
            JsonValueModel::Text(u) => if !valid_utf8(u) {
                Err(mismatch(key_username(), u))
            } else {
                match jlookup_last(ms, key_email()) {
                    None => Err(missing(Some(key_email()))),
                    Some(ev) => match ev {
                        JsonValueModel::Int(_) => Err(
                            FailureModel {
                                field: Some(key_email()),
                                observed: None,
                                reason: FailureReason::TypeMismatch,
                            },
                        ),
                        JsonValueModel::Text(e) => if !valid_utf8(e) {
                            Err(mismatch(key_email(), e))
                        } else {
                            match jlookup_last(ms, key_level()) {
                                None => Err(missing(Some(key_level()))),
                                Some(lv) => match lv {
                                    JsonValueModel::Text(t) => Err(mismatch(key_level(), t)),
                                    JsonValueModel::Int(n) => if 0 <= n <= 255 {
                                        Ok(
                                            CreateUserModel {
                                                username: decode_utf8(u),
                                                email: decode_utf8(e),
                                                level: n,
                                            },
                                        )
                                    } else {
                                        Err(
                                            FailureModel {
                                                field: Some(key_level()),
                                                observed: None,
                                                reason: FailureReason::TypeMismatch,
                                            },
                                        )
                                    },
                                },
                            }
                        },
                    },
                }
            },
        },
    }
}

/// JSON body extraction of `CreateUser`.
pub open spec fn spec_create_user_json(r: RequestModel) -> Result<CreateUserModel, FailureModel> {
    match r.body {
        None => Err(missing(None)),
        Some(b) => if !(b.encoding is Json) {
            Err(
                FailureModel {
                    field: None,
                    observed: None,
                    reason: FailureReason::UnsupportedContentType,
                },
            )
        } else {
            match parse_object(b.bytes) {
                None => Err(
                    FailureModel { field: None, observed: None, reason: FailureReason::MalformedBody },
                ),
                Some(ms) => spec_create_user_members(ms),
            }
        },
    }
}

/// Coerces a JSON member to a required string field.
fn member_string_field(ms: &Vec<(Vec<u8>, JsonValue)>, key: Vec<u8>) -> (r: Result<
    String,
    ExtractionFailure,
>)
    ensures
        (match r {
            Ok(s) => Ok(s@),
            Err(e) => Err(e@),
        }) == (match jlookup_last(members_model(ms@), key@) {
            None => Err::<Seq<char>, FailureModel>(missing(Some(key@))),
            Some(v) => match v {
                JsonValueModel::Int(_) => Err(
                    FailureModel {
                        field: Some(key@),
                        observed: None,
                        reason: FailureReason::TypeMismatch,
                    },
                ),
                JsonValueModel::Text(t) => if valid_utf8(t) {
                    Ok(decode_utf8(t))
                } else {
                    Err(mismatch(key@, t))
                },
            },
        }),
{
    match jlookup_last_exec(ms, key.as_slice()) {
        None => Err(
            ExtractionFailure {
                field: Some(key),
                observed: None,
                reason: FailureReason::MissingRequiredField,
            },
        ),
        Some(v) => match v {
            JsonValue::Int(_) => Err(
                ExtractionFailure {
                    field: Some(key),
                    observed: None,
                    reason: FailureReason::TypeMismatch,
                },
            ),
            JsonValue::Text(t) => {
                let raw = copy_range(t.as_slice(), 0, t.len());
                proof {
                    assert(raw@ =~= t@);
                }
                match string_from_utf8(raw) {
                    Some(s) => Ok(s),
                    None => Err(
                        ExtractionFailure {
                            field: Some(key),
                            observed: Some(t),
                            reason: FailureReason::TypeMismatch,
                        },
                    ),
                }
            },
        },
    }
}

/// Extracts `CreateUser` from a JSON body.
pub fn extract_create_user_json(req: &Request) -> (r: Result<CreateUser, ExtractionFailure>)
    ensures
        create_user_result_model(r) == spec_create_user_json(req@),
{
    let body = match &req.body {
        None => {
            return Err(
                ExtractionFailure {
                    field: None,
                    observed: None,
                    reason: FailureReason::MissingRequiredField,
                },
            );
        },
        Some(b) => b,
    };
    match body.encoding {
        BodyEncoding::Json => {},
        _ => {
            return Err(
                ExtractionFailure {
                    field: None,
                    observed: None,
                    reason: FailureReason::UnsupportedContentType,
                },
            );
        },
    }
    let ms = match parse_object_exec(body.bytes.as_slice()) {
        None => {
            return Err(
                ExtractionFailure {
                    field: None,
                    observed: None,
                    reason: FailureReason::MalformedBody,
                },
            );
        },
        Some(ms) => ms,
    };
    let username = match member_string_field(&ms, key_username_exec()) {
        Ok(s) => s,
        Err(e) => {
            return Err(e);
        },
    };
    let email = match member_string_field(&ms, key_email_exec()) {
        Ok(s) => s,
        Err(e) => {
            return Err(e);
        },
    };
    let lk = key_level_exec();
    let level = match jlookup_last_exec(&ms, lk.as_slice()) {
        None => {
            return Err(
                ExtractionFailure {
                    field: Some(lk),
                    observed: None,
                    reason: FailureReason::MissingRequiredField,
                },
            );
        },
        Some(JsonValue::Text(t)) => {
            return Err(
                ExtractionFailure {
                    field: Some(lk),
                    observed: Some(t),
                    reason: FailureReason::TypeMismatch,
                },
            );
        },
        Some(JsonValue::Int(n)) => {
            if 0 <= n && n <= 255 {
                n as u8
            } else {
                return Err(
                    ExtractionFailure {
                        field: Some(lk),
                        observed: None,
                        reason: FailureReason::TypeMismatch,
                    },
                );
            }
        },
    };
    Ok(CreateUser { username, email, level })
}

/// Form/JSON body equivalence: a form-encoded body and a JSON body that
/// carry the same field values for the `CreateUser` shape — the same
/// username and email text and the same level — extract to the identical
/// populated shape.
pub proof fn lemma_form_json_equivalence(
    fr: RequestModel,
    jr: RequestModel,
    u: Seq<u8>,
    e: Seq<u8>,
    l: Seq<u8>,
    n: int,
)
    requires
        has_body(fr, BodyEncoding::FormUrlEncoded),
        lookup_last(form_pairs(fr), key_username()) == Some(u),
        valid_utf8(u),
        lookup_last(form_pairs(fr), key_email()) == Some(e),
        valid_utf8(e),
        lookup_last(form_pairs(fr), key_level()) == Some(l),
        spec_parse_u8(l) matches Some(lv) && lv as int == n,
        has_body(jr, BodyEncoding::Json),
        json_members(jr) matches Some(ms) && jlookup_last(ms, key_username()) == Some(
            JsonValueModel::Text(u),
        ) && jlookup_last(ms, key_email()) == Some(JsonValueModel::Text(e)) && jlookup_last(
            ms,
            key_level(),
        ) == Some(JsonValueModel::Int(n)),
    ensures
        spec_create_user_form(fr) == Ok::<CreateUserModel, FailureModel>(
            CreateUserModel { username: decode_utf8(u), email: decode_utf8(e), level: n },
        ),
        spec_create_user_json(jr) == Ok::<CreateUserModel, FailureModel>(
            CreateUserModel { username: decode_utf8(u), email: decode_utf8(e), level: n },
        ),
        spec_create_user_form(fr) == spec_create_user_json(jr),
{
    match fr.body {
        Some(b) => {
            assert(form_pairs(fr) == query_pairs(b.bytes));
        },
        None => {},
    }
    match jr.body {
        Some(b) => {
            assert(json_members(jr) == parse_object(b.bytes));
        },
        None => {},
    }
}

} // verus!
