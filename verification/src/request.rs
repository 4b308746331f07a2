//! The immutable view of one inbound HTTP exchange that every extractor
//! reads: the method token, the path variables the router bound, the raw
//! query string, the header multimap, and the body.
//!
//! The transport layer constructs one `Request` per exchange from plain
//! values and discards it after the handler returns. All raw data is held
//! as byte strings; nothing here is interpreted yet.

use vstd::prelude::*;

verus! {

/// One path variable: the template name the router declared and the value
/// it substituted for that segment.
#[derive(Debug)]
pub struct PathVar {
    pub name: Vec<u8>,
    pub value: Vec<u8>,
}

/// One header line. Names are compared ASCII-case-insensitively; values are
/// kept as the raw octets received.
#[derive(Debug)]
pub struct HeaderLine {
    pub name: Vec<u8>,
    pub value: Vec<u8>,
}

/// The body encodings a target shape can declare.
#[derive(Clone, Copy, Debug, PartialEq, Eq, Structural)]
pub enum BodyEncoding {
    FormUrlEncoded,
    Json,
}

/// A request body: the content octets together with the encoding the
/// transport layer reported for them.
#[derive(Debug)]
pub struct Body {
    pub encoding: BodyEncoding,
    pub bytes: Vec<u8>,
}

/// Immutable view of one inbound exchange. `query` distinguishes an absent
/// query string from a present-but-empty one.
#[derive(Debug)]
pub struct Request {
    pub method: Vec<u8>,
    pub path_vars: Vec<PathVar>,
    pub query: Option<Vec<u8>>,
    pub headers: Vec<HeaderLine>,
    pub body: Option<Body>,
}

/// Ghost image of a body.
pub struct BodyModel {
    pub encoding: BodyEncoding,
    pub bytes: Seq<u8>,
}

/// Ghost image of a request: every byte string as a `Seq<u8>`, every
/// name/value pair as a tuple.
pub struct RequestModel {
    pub method: Seq<u8>,
    pub path_vars: Seq<(Seq<u8>, Seq<u8>)>,
    pub query: Option<Seq<u8>>,
    pub headers: Seq<(Seq<u8>, Seq<u8>)>,
    pub body: Option<BodyModel>,
}

impl View for Body {
    type V = BodyModel;

    open spec fn view(&self) -> BodyModel {
        BodyModel { encoding: self.encoding, bytes: self.bytes@ }
    }
}

/// Ghost image of a path-variable list.
pub open spec fn path_vars_model(vs: Seq<PathVar>) -> Seq<(Seq<u8>, Seq<u8>)> {
    vs.map(|i: int, pv: PathVar| (pv.name@, pv.value@))
}

/// Ghost image of a header list.
pub open spec fn headers_model(hs: Seq<HeaderLine>) -> Seq<(Seq<u8>, Seq<u8>)> {
    hs.map(|i: int, h: HeaderLine| (h.name@, h.value@))
}

impl View for Request {
    type V = RequestModel;

    open spec fn view(&self) -> RequestModel {
        RequestModel {
            method: self.method@,
            path_vars: path_vars_model(self.path_vars@),
            query: match self.query {
                Some(q) => Some(q@),
                None => None,
            },
            headers: headers_model(self.headers@),
            body: match self.body {
                Some(b) => Some(b@),
                None => None,
            },
        }
    }
}

/// The query string an extractor reads: an absent query string reads as an
/// empty one, so its declared fields are simply all missing.
pub open spec fn query_of(r: RequestModel) -> Seq<u8> {
    match r.query {
        Some(q) => q,
        None => Seq::empty(),
    }
}

} // verus!
