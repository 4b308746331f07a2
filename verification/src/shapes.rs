//! The target shapes this library declares: statically declared records
//! with named, typed fields, together with their ghost images.
//!
//! Record fields are either coerced integers or UTF-8 strings; the
//! per-field-optional variant marks each field absent-tolerant, and the
//! handler decides its own defaulting.

use vstd::prelude::*;

verus! {

/// A named record of two path variables.
#[derive(Debug)]
pub struct RepoInfo {
    pub user_name: String,
    pub repo_name: String,
}

/// Required-shape query record: both fields must be present and coercible.
#[derive(Debug)]
pub struct SubjectArgs {
    pub page: i32,
    pub keyword: String,
}

/// Per-field-optional query record: an absent field stays absent rather
/// than defaulted, so the handler decides its own defaults.
#[derive(Debug)]
pub struct SubjectArgsOpt {
    pub page: Option<i32>,
    pub keyword: Option<String>,
}

/// Body record, extracted from a form-encoded or a JSON body.
#[derive(Debug)]
pub struct CreateUser {
    pub username: String,
    pub email: String,
    pub level: u8,
}

/// Ghost image of `RepoInfo`.
pub struct RepoInfoModel {
    pub user_name: Seq<char>,
    pub repo_name: Seq<char>,
}

/// Ghost image of `SubjectArgs`.
pub struct SubjectArgsModel {
    pub page: int,
    pub keyword: Seq<char>,
}

/// Ghost image of `SubjectArgsOpt`.
pub struct SubjectArgsOptModel {
    pub page: Option<int>,
    pub keyword: Option<Seq<char>>,
}

/// Ghost image of `CreateUser`.
pub struct CreateUserModel {
    pub username: Seq<char>,
    pub email: Seq<char>,
    pub level: int,
}

impl View for RepoInfo {
    type V = RepoInfoModel;

    open spec fn view(&self) -> RepoInfoModel {
        RepoInfoModel { user_name: self.user_name@, repo_name: self.repo_name@ }
    }
}

impl View for SubjectArgs {
    type V = SubjectArgsModel;

    open spec fn view(&self) -> SubjectArgsModel {
        SubjectArgsModel { page: self.page as int, keyword: self.keyword@ }
    }
}

impl View for SubjectArgsOpt {
    type V = SubjectArgsOptModel;

    open spec fn view(&self) -> SubjectArgsOptModel {
        SubjectArgsOptModel {
            page: match self.page {
                Some(p) => Some(p as int),
                None => None,
            },
            keyword: match self.keyword {
                Some(k) => Some(k@),
                None => None,
            },
        }
    }
}

impl View for CreateUser {
    type V = CreateUserModel;

    open spec fn view(&self) -> CreateUserModel {
        CreateUserModel { username: self.username@, email: self.email@, level: self.level as int }
    }
}

/// Handler-level defaulting for the per-field-optional subject shape: an
/// absent page becomes 0 and an absent keyword the empty string. This is a
/// handler concern, separate from extraction, which leaves absent fields
/// absent.
pub fn subject_defaults(args: SubjectArgsOpt) -> (r: SubjectArgs)
    ensures
        r.page as int == (match args@.page {
            Some(p) => p,
            None => 0,
        }),
        r.keyword@ == (match args@.keyword {
            Some(k) => k,
            None => Seq::<char>::empty(),
        }),
{
    let page = match args.page {
        Some(p) => p,
        None => 0,
    };
    let keyword = match args.keyword {
        Some(k) => k,
        None => String::new(),
    };
    SubjectArgs { page, keyword }
}

} // verus!
