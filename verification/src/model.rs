//! The spanned dotDSL document tree.

use vstd::prelude::*;

use crate::diagnostics::Span;

verus! {

/// Generic typed value with source span.
#[derive(Clone, Debug, PartialEq)]
pub struct Spanned<T> {
    pub value: T,
    pub span: Span,
}

/// Model of a spanned value: the value's own model plus the span.
pub struct SpannedModel<V> {
    pub value: V,
    pub span: Span,
}

impl<T: View> View for Spanned<T> {
    type V = SpannedModel<T::V>;

    open spec fn view(&self) -> SpannedModel<T::V> {
        SpannedModel { value: self.value@, span: self.span }
    }
}

impl<T> Spanned<T> {
    pub fn new(value: T, span: Span) -> (r: Spanned<T>)
        ensures
            r == (Spanned { value, span }),
    {
        Spanned { value, span }
    }
}

/// Top-level dotDSL document.
#[derive(Debug, PartialEq)]
pub struct Document {
    pub version: Option<Spanned<String>>,
    pub metadata: Metadata,
    pub capabilities: Vec<Spanned<String>>,
    pub server: Option<Server>,
    pub apis: Vec<Api>,
}

#[derive(Debug, PartialEq)]
pub struct Metadata {
    pub app: Option<Spanned<String>>,
    pub project: Option<Spanned<String>>,
}

#[derive(Debug, PartialEq)]
pub struct Server {
    pub port: Spanned<u16>,
    pub span: Span,
}

#[derive(Debug, PartialEq)]
pub struct Api {
    pub name: Spanned<String>,
    pub routes: Vec<Route>,
    pub span: Span,
}

#[derive(Debug, PartialEq)]
pub struct Route {
    pub verb: Spanned<String>,
    pub path: Spanned<String>,
    pub response: Option<Response>,
    pub span: Span,
}

#[derive(Debug, PartialEq)]
pub struct Response {
    pub status: Spanned<u16>,
    pub body: Spanned<String>,
    pub span: Span,
}

/// Models of the tree, with strings as character sequences.
pub struct MetadataModel {
    pub app: Option<SpannedModel<Seq<char>>>,
    pub project: Option<SpannedModel<Seq<char>>>,
}

pub struct ServerModel {
    pub port: SpannedModel<u16>,
    pub span: Span,
}

pub struct ResponseModel {
    pub status: SpannedModel<u16>,
    pub body: SpannedModel<Seq<char>>,
    pub span: Span,
}

pub struct RouteModel {
    pub verb: SpannedModel<Seq<char>>,
    pub path: SpannedModel<Seq<char>>,
    pub response: Option<ResponseModel>,
    pub span: Span,
}

pub struct ApiModel {
    pub name: SpannedModel<Seq<char>>,
    pub routes: Seq<RouteModel>,
    pub span: Span,
}

pub struct DocumentModel {
    pub version: Option<SpannedModel<Seq<char>>>,
    pub metadata: MetadataModel,
    pub capabilities: Seq<SpannedModel<Seq<char>>>,
    pub server: Option<ServerModel>,
    pub apis: Seq<ApiModel>,
}

impl View for Metadata {
    type V = MetadataModel;

    open spec fn view(&self) -> MetadataModel {
        MetadataModel {
            app: match self.app {
                Some(app) => Some(app@),
                None => None,
            },
            project: match self.project {
                Some(project) => Some(project@),
                None => None,
            },
        }
    }
}

impl View for Server {
    type V = ServerModel;

    open spec fn view(&self) -> ServerModel {
        ServerModel { port: self.port@, span: self.span }
    }
}

impl View for Response {
    type V = ResponseModel;

    open spec fn view(&self) -> ResponseModel {
        ResponseModel { status: self.status@, body: self.body@, span: self.span }
    }
}

impl View for Route {
    type V = RouteModel;

    open spec fn view(&self) -> RouteModel {
        RouteModel {
            verb: self.verb@,
            path: self.path@,
            response: match self.response {
                Some(response) => Some(response@),
                None => None,
            },
            span: self.span,
        }
    }
}

impl View for Api {
    type V = ApiModel;

    open spec fn view(&self) -> ApiModel {
        ApiModel {
            name: self.name@,
            routes: Seq::new(self.routes@.len(), |i: int| self.routes@[i]@),
            span: self.span,
        }
    }
}

impl View for Document {
    type V = DocumentModel;

    open spec fn view(&self) -> DocumentModel {
        DocumentModel {
            version: match self.version {
                Some(version) => Some(version@),
                None => None,
            },
            metadata: self.metadata@,
            capabilities: Seq::new(self.capabilities@.len(), |i: int| self.capabilities@[i]@),
            server: match self.server {
                Some(server) => Some(server@),
                None => None,
            },
            apis: Seq::new(self.apis@.len(), |i: int| self.apis@[i]@),
        }
    }
}

/// The empty document: nothing declared yet.
pub open spec fn empty_document_model() -> DocumentModel {
    DocumentModel {
        version: None,
        metadata: MetadataModel { app: None, project: None },
        capabilities: Seq::empty(),
        server: None,
        apis: Seq::empty(),
    }
}

impl Default for Document {
    fn default() -> (r: Document)
        ensures
            r@ == empty_document_model(),
    {
        let r = Document {
            version: None,
            metadata: Metadata { app: None, project: None },
            capabilities: Vec::new(),
            server: None,
            apis: Vec::new(),
        };
        proof {
            assert(r@.capabilities =~= empty_document_model().capabilities);
            assert(r@.apis =~= empty_document_model().apis);
        }
        r
    }
}

} // verus!
