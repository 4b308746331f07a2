//! The typed-extraction dispatch contract: one total mapping from a
//! request and a declared target shape to a populated value of that shape
//! or a structured failure.
//!
//! An external router picks the handler and the target shape its
//! signature declares; [`extract`] pulls the declared source, coerces and
//! validates it, and hands back either the populated shape or the failure
//! the dispatch layer turns into a 4xx-class response. The whole contract
//! is the spec function [`spec_extract`]; every extractor is a pure
//! function of the request, which makes extraction deterministic and
//! retries pointless.

use vstd::prelude::*;

use crate::body::{
    create_user_result_model, extract_create_user_form, extract_create_user_json,
    spec_create_user_form, spec_create_user_json,
};
use crate::failure::{ExtractionFailure, FailureModel};
use crate::header::{extract_header_map, extract_user_agent, spec_user_agent};
use crate::path::{
    extract_path_i32, extract_path_pair, extract_repo_info, repo_result_model, spec_path_i32,
    spec_path_pair, spec_repo_info,
};
use crate::query::{
    extract_query_map, extract_subject_args, extract_subject_args_opt,
    extract_subject_args_optional, pairs_model, spec_query_map, spec_subject_args,
    spec_subject_args_opt, spec_subject_args_optional, subject_opt_result_model,
    subject_result_model,
};
use crate::request::{headers_model, query_of, HeaderLine, Request, RequestModel};
use crate::shapes::{
    CreateUser, CreateUserModel, RepoInfo, RepoInfoModel, SubjectArgs, SubjectArgsModel,
    SubjectArgsOpt, SubjectArgsOptModel,
};
use crate::text::copy_range;

verus! {

/// The target shapes this library declares, one per extraction mode.
#[derive(Clone, Copy, Debug, PartialEq, Eq, Structural)]
pub enum TargetShape {
    /// Single-scalar path mode: one `i32` path variable.
    PathId,
    /// Tuple path mode: two string path variables, in declaration order.
    PathPair,
    /// Record path mode: `RepoInfo`, looked up by field name.
    PathRecord,
    /// Required-shape query mode: `SubjectArgs`.
    QuerySubject,
    /// Optional-wrapper query mode: `Option<SubjectArgs>`.
    QuerySubjectOptional,
    /// Per-field-optional query mode: `SubjectArgsOpt`.
    QuerySubjectPerField,
    /// Passthrough query mode: the open key/value mapping.
    QueryPassthrough,
    /// Form-encoded body mode: `CreateUser`.
    FormCreateUser,
    /// JSON body mode: `CreateUser`.
    JsonCreateUser,
    /// Raw header-map mode: the whole multimap.
    HeaderMap,
    /// Typed single-header mode: the `User-Agent` text.
    HeaderUserAgent,
}

/// A populated target shape.
#[derive(Debug)]
pub enum Extracted {
    PathId(i32),
    PathPair(String, String),
    PathRecord(RepoInfo),
    QuerySubject(SubjectArgs),
    QuerySubjectOptional(Option<SubjectArgs>),
    QuerySubjectPerField(SubjectArgsOpt),
    QueryPassthrough(Vec<(Vec<u8>, Vec<u8>)>),
    FormCreateUser(CreateUser),
    JsonCreateUser(CreateUser),
    HeaderMap(Vec<HeaderLine>),
    HeaderUserAgent(String),
}

/// Ghost image of a populated target shape.
pub enum ExtractedModel {
    PathId(int),
    PathPair(Seq<char>, Seq<char>),
    PathRecord(RepoInfoModel),
    QuerySubject(SubjectArgsModel),
    QuerySubjectOptional(Option<SubjectArgsModel>),
    QuerySubjectPerField(SubjectArgsOptModel),
    QueryPassthrough(Seq<(Seq<u8>, Seq<u8>)>),
    FormCreateUser(CreateUserModel),
    JsonCreateUser(CreateUserModel),
    HeaderMap(Seq<(Seq<u8>, Seq<u8>)>),
    HeaderUserAgent(Seq<char>),
}

impl View for Extracted {
    type V = ExtractedModel;

    open spec fn view(&self) -> ExtractedModel {
        match self {
            Extracted::PathId(v) => ExtractedModel::PathId(*v as int),
            Extracted::PathPair(a, b) => ExtractedModel::PathPair(a@, b@),
            Extracted::PathRecord(v) => ExtractedModel::PathRecord(v@),
            Extracted::QuerySubject(v) => ExtractedModel::QuerySubject(v@),
            Extracted::QuerySubjectOptional(v) => ExtractedModel::QuerySubjectOptional(
                match v {
                    Some(a) => Some(a@),
                    None => None,
                },
            ),
            Extracted::QuerySubjectPerField(v) => ExtractedModel::QuerySubjectPerField(v@),
            Extracted::QueryPassthrough(v) => ExtractedModel::QueryPassthrough(pairs_model(v@)),
            Extracted::FormCreateUser(v) => ExtractedModel::FormCreateUser(v@),
            Extracted::JsonCreateUser(v) => ExtractedModel::JsonCreateUser(v@),
            Extracted::HeaderMap(v) => ExtractedModel::HeaderMap(headers_model(v@)),
            Extracted::HeaderUserAgent(v) => ExtractedModel::HeaderUserAgent(v@),
        }
    }
}

/// The extraction contract, whole: what each declared target shape yields
/// on a given request.
pub open spec fn spec_extract(r: RequestModel, shape: TargetShape) -> Result<
    ExtractedModel,
    FailureModel,
> {
    match shape {
        TargetShape::PathId => match spec_path_i32(r) {
            Ok(v) => Ok(ExtractedModel::PathId(v)),
            Err(e) => Err(e),
        },
        TargetShape::PathPair => match spec_path_pair(r) {
            Ok(p) => Ok(ExtractedModel::PathPair(p.0, p.1)),
            Err(e) => Err(e),
        },
        TargetShape::PathRecord => match spec_repo_info(r) {
            Ok(v) => Ok(ExtractedModel::PathRecord(v)),
            Err(e) => Err(e),
        },
        TargetShape::QuerySubject => match spec_subject_args(r) {
            Ok(v) => Ok(ExtractedModel::QuerySubject(v)),
            Err(e) => Err(e),
        },
        TargetShape::QuerySubjectOptional => Ok(
            ExtractedModel::QuerySubjectOptional(spec_subject_args_optional(r)),
        ),
        TargetShape::QuerySubjectPerField => match spec_subject_args_opt(r) {
            Ok(v) => Ok(ExtractedModel::QuerySubjectPerField(v)),
            Err(e) => Err(e),
        },
        TargetShape::QueryPassthrough => Ok(
            ExtractedModel::QueryPassthrough(spec_query_map(query_of(r))),
        ),
        TargetShape::FormCreateUser => match spec_create_user_form(r) {
            Ok(v) => Ok(ExtractedModel::FormCreateUser(v)),
            Err(e) => Err(e),
        },
        TargetShape::JsonCreateUser => match spec_create_user_json(r) {
            Ok(v) => Ok(ExtractedModel::JsonCreateUser(v)),
            Err(e) => Err(e),
        },
        TargetShape::HeaderMap => Ok(ExtractedModel::HeaderMap(r.headers)),
        TargetShape::HeaderUserAgent => match spec_user_agent(r) {
            Ok(s) => Ok(ExtractedModel::HeaderUserAgent(s)),
            Err(e) => Err(e),
        },
    }
}

/// Ghost image of a dispatch result.
pub open spec fn extracted_result_model(r: Result<Extracted, ExtractionFailure>) -> Result<
    ExtractedModel,
    FailureModel,
> {
    match r {
        Ok(v) => Ok(v@),
        Err(e) => Err(e@),
    }
}

/// The extraction contract as a predicate on a dispatch result.
pub open spec fn extraction_post(
    req: Request,
    shape: TargetShape,
    r: Result<Extracted, ExtractionFailure>,
) -> bool {
    extracted_result_model(r) == spec_extract(req@, shape)
}

/// Copies a header list.
fn copy_headers(hs: &Vec<HeaderLine>) -> (r: Vec<HeaderLine>)
    ensures
        headers_model(r@) == headers_model(hs@),
{
    let mut out: Vec<HeaderLine> = Vec::new();
    let mut i: usize = 0;
    proof {
        assert(headers_model(out@) =~= headers_model(hs@).take(0));
    }
    while i < hs.len()
        invariant
            i <= hs.len(),
            headers_model(out@) == headers_model(hs@).take(i as int),
        decreases hs.len() - i,
    {
        let ghost pre = headers_model(out@);
        let name = copy_range(hs[i].name.as_slice(), 0, hs[i].name.len());
        let value = copy_range(hs[i].value.as_slice(), 0, hs[i].value.len());
        out.push(HeaderLine { name, value });
        proof {
            assert(name@ =~= hs@[i as int].name@);
            assert(value@ =~= hs@[i as int].value@);
            assert(headers_model(out@) =~= pre.push(headers_model(hs@)[i as int]));
            assert(headers_model(out@) =~= headers_model(hs@).take(i as int + 1));
        }
        i = i + 1;
    }
    proof {
        assert(headers_model(hs@).take(hs@.len() as int) =~= headers_model(hs@));
    }
    out
}

/// Dispatches one extraction: pulls the source the declared shape reads,
/// coerces and validates it, and returns the populated shape or the
/// failure the caller maps to an HTTP response.
pub fn extract(req: &Request, shape: TargetShape) -> (r: Result<Extracted, ExtractionFailure>)
    ensures
        extraction_post(*req, shape, r),
{
    match shape {
        TargetShape::PathId => match extract_path_i32(req) {
            Ok(v) => Ok(Extracted::PathId(v)),
            Err(e) => Err(e),
        },
        TargetShape::PathPair => match extract_path_pair(req) {
            Ok(p) => Ok(Extracted::PathPair(p.0, p.1)),
            Err(e) => Err(e),
        },
        TargetShape::PathRecord => match extract_repo_info(req) {
            Ok(v) => Ok(Extracted::PathRecord(v)),
            Err(e) => Err(e),
        },
        TargetShape::QuerySubject => match extract_subject_args(req) {
            Ok(v) => Ok(Extracted::QuerySubject(v)),
            Err(e) => Err(e),
        },
        TargetShape::QuerySubjectOptional => Ok(
            Extracted::QuerySubjectOptional(extract_subject_args_optional(req)),
        ),
        TargetShape::QuerySubjectPerField => match extract_subject_args_opt(req) {
            Ok(v) => Ok(Extracted::QuerySubjectPerField(v)),
            Err(e) => Err(e),
        },
        TargetShape::QueryPassthrough => Ok(Extracted::QueryPassthrough(extract_query_map(req))),
        TargetShape::FormCreateUser => match extract_create_user_form(req) {
            Ok(v) => Ok(Extracted::FormCreateUser(v)),
            Err(e) => Err(e),
        },
        TargetShape::JsonCreateUser => match extract_create_user_json(req) {
            Ok(v) => Ok(Extracted::JsonCreateUser(v)),
            Err(e) => Err(e),
        },
        TargetShape::HeaderMap => {
            let hs = copy_headers(extract_header_map(req));
            Ok(Extracted::HeaderMap(hs))
        },
        TargetShape::HeaderUserAgent => match extract_user_agent(req) {
            Ok(s) => Ok(Extracted::HeaderUserAgent(s)),
            Err(e) => Err(e),
        },
    }
}

/// Determinism: extraction is a pure function of the request and the
/// declared target shape. Any two results that satisfy the extraction
/// contract for equal requests and the same shape are the same result —
/// the same populated value or the same failure — so extracting twice
/// yields identical results, and a retry on an unchanged request cannot
/// succeed where the first attempt failed.
pub proof fn lemma_extraction_deterministic(
    req1: Request,
    req2: Request,
    shape: TargetShape,
    r1: Result<Extracted, ExtractionFailure>,
    r2: Result<Extracted, ExtractionFailure>,
)
    requires
        req1@ == req2@,
        extraction_post(req1, shape, r1),
        extraction_post(req2, shape, r2),
    ensures
        extracted_result_model(r1) == extracted_result_model(r2),
{
}

} // verus!
