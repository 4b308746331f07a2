//! The path-variable source and its three modes: a single scalar, an
//! ordered tuple of scalars, and a named record of scalars.
//!
//! Path variables arrive from the router already bound to their template
//! names, in declaration order. Single-scalar and tuple modes read them
//! positionally; record mode looks each declared field name up among the
//! variable names. A variable that is missing at this point is a
//! route/shape mismatch — a registration mistake — and is reported as
//! `MissingRequiredField`.

use vstd::prelude::*;
use vstd::utf8::{decode_utf8, valid_utf8};

use crate::failure::{missing, mismatch, ExtractionFailure, FailureModel, FailureReason};
use crate::request::{path_vars_model, PathVar, Request, RequestModel};
use crate::shapes::{RepoInfo, RepoInfoModel};
use crate::text::{bytes_eq, copy_range, parse_i32, spec_parse_i32, string_from_utf8};

verus! {

/// The value of the first path variable carrying `name`.
pub open spec fn path_lookup(vars: Seq<(Seq<u8>, Seq<u8>)>, name: Seq<u8>) -> Option<Seq<u8>>
    decreases vars.len(),
{
    if vars.len() == 0 {
        None
    } else if vars[0].0 == name {
        Some(vars[0].1)
    } else {
        path_lookup(vars.skip(1), name)
    }
}

/// The declared field name `user_name`.
pub open spec fn key_user_name() -> Seq<u8> {
    seq![117u8, 115u8, 101u8, 114u8, 95u8, 110u8, 97u8, 109u8, 101u8]
}

/// The declared field name `repo_name`.
pub open spec fn key_repo_name() -> Seq<u8> {
    seq![114u8, 101u8, 112u8, 111u8, 95u8, 110u8, 97u8, 109u8, 101u8]
}

fn key_user_name_exec() -> (r: Vec<u8>)
    ensures
        r@ == key_user_name(),
{
    let v = vec![117u8, 115u8, 101u8, 114u8, 95u8, 110u8, 97u8, 109u8, 101u8];
    proof {
        assert(v@ =~= key_user_name());
    }
    v
}

fn key_repo_name_exec() -> (r: Vec<u8>)
    ensures
        r@ == key_repo_name(),
{
    let v = vec![114u8, 101u8, 112u8, 111u8, 95u8, 110u8, 97u8, 109u8, 101u8];
    proof {
        assert(v@ =~= key_repo_name());
    }
    v
}

/// Looks up the first path variable carrying `name` and copies its value.
fn path_lookup_exec(vars: &Vec<PathVar>, name: &[u8]) -> (r: Option<Vec<u8>>)
    ensures
        (match r {
            Some(v) => Some(v@),
            None => None,
        }) == path_lookup(path_vars_model(vars@), name@),
{
    let ghost pm = path_vars_model(vars@);
    let mut i: usize = 0;
    proof {
        assert(pm.skip(0) =~= pm);
    }
    while i < vars.len()
        invariant
            i <= vars.len(),
            pm == path_vars_model(vars@),
            path_lookup(pm, name@) == path_lookup(pm.skip(i as int), name@),
        decreases vars.len() - i,
    {
        proof {
            assert(pm.skip(i as int)[0] == pm[i as int]);
            assert(pm.skip(i as int).skip(1) =~= pm.skip(i as int + 1));
        }
        if bytes_eq(vars[i].name.as_slice(), name) {
            let v = copy_range(vars[i].value.as_slice(), 0, vars[i].value.len());
            proof {
                assert(v@ =~= pm[i as int].1);
            }
            return Some(v);
        }
        i = i + 1;
    }
    proof {
        assert(pm.skip(vars@.len() as int) =~= Seq::<(Seq<u8>, Seq<u8>)>::empty());
    }
    None
}

/// Single-scalar path extraction: the one path variable the route declares,
/// coerced to `i32`. No variable at all is a route/shape mismatch.
pub open spec fn spec_path_i32(r: RequestModel) -> Result<int, FailureModel> {
    if r.path_vars.len() == 0 {
        Err(missing(None))
    } else {
        let nv = r.path_vars[0];
        match spec_parse_i32(nv.1) {
            Some(v) => Ok(v as int),
            None => Err(mismatch(nv.0, nv.1)),
        }
    }
}

/// Extracts the single path variable as an `i32`.
pub fn extract_path_i32(req: &Request) -> (r: Result<i32, ExtractionFailure>)
    ensures
        (match r {
            Ok(v) => Ok(v as int),
            Err(e) => Err(e@),
        }) == spec_path_i32(req@),
{
    if req.path_vars.len() == 0 {
        return Err(
            ExtractionFailure {
                field: None,
                observed: None,
                reason: FailureReason::MissingRequiredField,
            },
        );
    }
    let pv = &req.path_vars[0];
    proof {
        assert(req@.path_vars[0] == (pv.name@, pv.value@));
    }
    match parse_i32(pv.value.as_slice()) {
        Some(v) => Ok(v),
        None => {
            let name = copy_range(pv.name.as_slice(), 0, pv.name.len());
            let value = copy_range(pv.value.as_slice(), 0, pv.value.len());
            proof {
                assert(name@ =~= pv.name@);
                assert(value@ =~= pv.value@);
            }
            Err(
                ExtractionFailure {
                    field: Some(name),
                    observed: Some(value),
                    reason: FailureReason::TypeMismatch,
                },
            )
        },
    }
}

/// Tuple path extraction: the first two path variables, in declaration
/// order, each coerced to a string.
pub open spec fn spec_path_pair(r: RequestModel) -> Result<(Seq<char>, Seq<char>), FailureModel> {
    if r.path_vars.len() < 2 {
        Err(missing(None))
    } else {
        let a = r.path_vars[0];
        let b = r.path_vars[1];
        if !valid_utf8(a.1) {
            Err(mismatch(a.0, a.1))
        } else if !valid_utf8(b.1) {
            Err(mismatch(b.0, b.1))
        } else {
            Ok((decode_utf8(a.1), decode_utf8(b.1)))
        }
    }
}

/// Coerces one path variable to a string, or reports the mismatch.
fn path_var_string(pv: &PathVar) -> (r: Result<String, ExtractionFailure>)
    ensures
        (match r {
            Ok(s) => Ok(s@),
            Err(e) => Err(e@),
        }) == (if valid_utf8(pv.value@) {
            Ok::<Seq<char>, FailureModel>(decode_utf8(pv.value@))
        } else {
            Err(mismatch(pv.name@, pv.value@))
        }),
{
    let raw = copy_range(pv.value.as_slice(), 0, pv.value.len());
    proof {
        assert(raw@ =~= pv.value@);
    }
    match string_from_utf8(raw) {
        Some(s) => Ok(s),
        None => {
            let name = copy_range(pv.name.as_slice(), 0, pv.name.len());
            let value = copy_range(pv.value.as_slice(), 0, pv.value.len());
            proof {
                assert(name@ =~= pv.name@);
                assert(value@ =~= pv.value@);
            }
            Err(
                ExtractionFailure {
                    field: Some(name),
                    observed: Some(value),
                    reason: FailureReason::TypeMismatch,
                },
            )
        },
    }
}

/// Extracts the first two path variables as a pair of strings.
pub fn extract_path_pair(req: &Request) -> (r: Result<(String, String), ExtractionFailure>)
    ensures
        (match r {
            Ok(p) => Ok((p.0@, p.1@)),
            Err(e) => Err(e@),
        }) == spec_path_pair(req@),
{
    if req.path_vars.len() < 2 {
        return Err(
            ExtractionFailure {
                field: None,
                observed: None,
                reason: FailureReason::MissingRequiredField,
            },
        );
    }
    proof {
        assert(req@.path_vars[0] == (req.path_vars@[0].name@, req.path_vars@[0].value@));
        assert(req@.path_vars[1] == (req.path_vars@[1].name@, req.path_vars@[1].value@));
    }
    let first = match path_var_string(&req.path_vars[0]) {
        Ok(s) => s,
        Err(e) => {
            return Err(e);
        },
    };
    let second = match path_var_string(&req.path_vars[1]) {
        Ok(s) => s,
        Err(e) => {
            return Err(e);
        },
    };
    Ok((first, second))
}

/// Record path extraction of `RepoInfo`: each declared field name is looked
/// up among the route's variable names; `user_name` first, then
/// `repo_name`.
pub open spec fn spec_repo_info(r: RequestModel) -> Result<RepoInfoModel, FailureModel> {
    match path_lookup(r.path_vars, key_user_name()) {
        None => Err(missing(Some(key_user_name()))),
        Some(u) => if !valid_utf8(u) {
            Err(mismatch(key_user_name(), u))
        } else {
            match path_lookup(r.path_vars, key_repo_name()) {
                None => Err(missing(Some(key_repo_name()))),
                Some(v) => if valid_utf8(v) {
                    Ok(RepoInfoModel { user_name: decode_utf8(u), repo_name: decode_utf8(v) })
                } else {
                    Err(mismatch(key_repo_name(), v))
                },
            }
        },
    }
}

/// Ghost image of a record path extraction result.
pub open spec fn repo_result_model(r: Result<RepoInfo, ExtractionFailure>) -> Result<
    RepoInfoModel,
    FailureModel,
> {
    match r {
        Ok(v) => Ok(v@),
        Err(e) => Err(e@),
    }
}

/// Extracts the named record `{user_name: String, repo_name: String}` from
/// the path variables.
pub fn extract_repo_info(req: &Request) -> (r: Result<RepoInfo, ExtractionFailure>)
    ensures
        repo_result_model(r) == spec_repo_info(req@),
{
    let uk = key_user_name_exec();
    let u = match path_lookup_exec(&req.path_vars, uk.as_slice()) {
        None => {
            return Err(
                ExtractionFailure {
                    field: Some(uk),
                    observed: None,
                    reason: FailureReason::MissingRequiredField,
                },
            );
        },
        Some(u) => u,
    };
    let ucopy = copy_range(u.as_slice(), 0, u.len());
    proof {
        assert(ucopy@ =~= u@);
    }
    let user_name = match string_from_utf8(ucopy) {
        Some(s) => s,
        None => {
            return Err(
                ExtractionFailure {
                    field: Some(uk),
                    observed: Some(u),
                    reason: FailureReason::TypeMismatch,
                },
            );
        },
    };
    let rk = key_repo_name_exec();
    let v = match path_lookup_exec(&req.path_vars, rk.as_slice()) {
        None => {
            return Err(
                ExtractionFailure {
                    field: Some(rk),
                    observed: None,
                    reason: FailureReason::MissingRequiredField,
                },
            );
        },
        Some(v) => v,
    };
    let vcopy = copy_range(v.as_slice(), 0, v.len());
    proof {
        assert(vcopy@ =~= v@);
    }
    match string_from_utf8(vcopy) {
        Some(s) => Ok(RepoInfo { user_name, repo_name: s }),
        None => Err(
            ExtractionFailure {
                field: Some(rk),
                observed: Some(v),
                reason: FailureReason::TypeMismatch,
            },
        ),
    }
}

} // verus!
