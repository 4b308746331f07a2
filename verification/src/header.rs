//! The header source and its two modes: the raw multimap, verbatim, and a
//! typed lookup of one well-known header.
//!
//! Header names are compared ASCII-case-insensitively. A typed lookup
//! reads the first line carrying the name; its value must satisfy the
//! header field-content grammar — horizontal tab, space, and visible ASCII
//! octets — or the extraction fails with `MalformedHeaderValue`.

use vstd::prelude::*;
use vstd::utf8::decode_utf8;

use crate::failure::{missing, ExtractionFailure, FailureModel, FailureReason};
use crate::request::{headers_model, HeaderLine, Request, RequestModel};
use crate::text::{all_ascii, bytes_eq_ci, copy_range, lemma_ascii_valid_utf8, lower,
    string_from_utf8};

verus! {

/// The value of the first header whose name equals `name`
/// ASCII-case-insensitively.
pub open spec fn header_first(hs: Seq<(Seq<u8>, Seq<u8>)>, name: Seq<u8>) -> Option<Seq<u8>>
    decreases hs.len(),
{
    if hs.len() == 0 {
        None
    } else if lower(hs[0].0) == lower(name) {
        Some(hs[0].1)
    } else {
        header_first(hs.skip(1), name)
    }
}

/// The well-known header name `user-agent`.
pub open spec fn key_user_agent() -> Seq<u8> {
    seq![117u8, 115u8, 101u8, 114u8, 45u8, 97u8, 103u8, 101u8, 110u8, 116u8]
}

fn key_user_agent_exec() -> (r: Vec<u8>)
    ensures
        r@ == key_user_agent(),
{
    let v = vec![117u8, 115u8, 101u8, 114u8, 45u8, 97u8, 103u8, 101u8, 110u8, 116u8];
    proof {
        assert(v@ =~= key_user_agent());
    }
    v
}

/// The header field-content grammar: every octet is a horizontal tab, a
/// space, or visible ASCII.
pub open spec fn field_content_ok(v: Seq<u8>) -> bool {
    forall|i: int| 0 <= i < v.len() ==> (#[trigger] v[i] == 9 || (32 <= v[i] && v[i] <= 126))
}

/// Looks up the first header carrying `name` and copies its value.
fn header_first_exec(headers: &Vec<HeaderLine>, name: &[u8]) -> (r: Option<Vec<u8>>)
    ensures
        (match r {
            Some(v) => Some(v@),
            None => None,
        }) == header_first(headers_model(headers@), name@),
{
    let ghost hm = headers_model(headers@);
    let mut i: usize = 0;
    proof {
        assert(hm.skip(0) =~= hm);
    }
    while i < headers.len()
        invariant
            i <= headers.len(),
            hm == headers_model(headers@),
            header_first(hm, name@) == header_first(hm.skip(i as int), name@),
        decreases headers.len() - i,
    {
        proof {
            assert(hm.skip(i as int)[0] == hm[i as int]);
            assert(hm.skip(i as int).skip(1) =~= hm.skip(i as int + 1));
        }
        if bytes_eq_ci(headers[i].name.as_slice(), name) {
            let v = copy_range(headers[i].value.as_slice(), 0, headers[i].value.len());
            proof {
                assert(v@ =~= hm[i as int].1);
            }
            return Some(v);
        }
        i = i + 1;
    }
    proof {
        assert(hm.skip(headers@.len() as int) =~= Seq::<(Seq<u8>, Seq<u8>)>::empty());
    }
    None
}

/// Raw-map extraction: the entire header multimap, verbatim, in arrival
/// order. This extraction cannot fail.
pub fn extract_header_map(req: &Request) -> (r: &Vec<HeaderLine>)
    ensures
        r@ == req.headers@,
{
    &req.headers
}

/// Typed single-header extraction of `User-Agent`: the first line carrying
/// the name, absent means `MissingRequiredField`, and a value outside the
/// field-content grammar means `MalformedHeaderValue`. A user-agent value
/// has no structure beyond being field content, so the typed value is the
/// text itself.
pub open spec fn spec_user_agent(r: RequestModel) -> Result<Seq<char>, FailureModel> {
    match header_first(r.headers, key_user_agent()) {
        None => Err(missing(Some(key_user_agent()))),
        Some(v) => if field_content_ok(v) {
            Ok(decode_utf8(v))
        } else {
            Err(
                FailureModel {
                    field: Some(key_user_agent()),
                    observed: Some(v),
                    reason: FailureReason::MalformedHeaderValue,
                },
            )
        },
    }
}

/// Extracts the `User-Agent` header as a typed string.
pub fn extract_user_agent(req: &Request) -> (r: Result<String, ExtractionFailure>)
    ensures
        (match r {
            Ok(s) => Ok(s@),
            Err(e) => Err(e@),
        }) == spec_user_agent(req@),
{
    let name = key_user_agent_exec();
    let v = match header_first_exec(&req.headers, name.as_slice()) {
        None => {
            return Err(
                ExtractionFailure {
                    field: Some(name),
                    observed: None,
                    reason: FailureReason::MissingRequiredField,
                },
            );
        },
        Some(v) => v,
    };
    let mut i: usize = 0;
    while i < v.len()
        invariant
            i <= v.len(),
            name@ == key_user_agent(),
            header_first(req@.headers, key_user_agent()) == Some(v@),
            forall|j: int| 0 <= j < i ==> (#[trigger] v@[j] == 9 || (32 <= v@[j] && v@[j] <= 126)),
        decreases v.len() - i,
    {
        let b = v[i];
        if !(b == 9 || (32 <= b && b <= 126)) {
            proof {
                assert(!(v@[i as int] == 9 || (32 <= v@[i as int] && v@[i as int] <= 126)));
                assert(!field_content_ok(v@));
            }
            return Err(
                ExtractionFailure {
                    field: Some(name),
                    observed: Some(v),
                    reason: FailureReason::MalformedHeaderValue,
                },
            );
        }
        i = i + 1;
    }
    proof {
        assert(field_content_ok(v@));
        assert(all_ascii(v@));
        lemma_ascii_valid_utf8(v@);
    }
    let raw = copy_range(v.as_slice(), 0, v.len());
    proof {
        assert(raw@ =~= v@);
    }
    match string_from_utf8(raw) {
        Some(s) => Ok(s),
        None => Err(
            ExtractionFailure {
                field: Some(name),
                observed: Some(v),
                reason: FailureReason::MalformedHeaderValue,
            },
        ),
    }
}

} // verus!
