//! The shared project state: the single record every agent reads and writes.
//! Each field is written at most once per run by the agent responsible for
//! it, except the backend source text, which is overwritten on every repair
//! or improvement iteration.

use vstd::prelude::*;

verus! {

/// The three independent capability flags of a project.
#[derive(Clone, Copy, Debug, PartialEq, Eq, Structural)]
pub struct ProjectScope {
    pub is_crud_required: bool,
    pub is_user_login_and_logout: bool,
    pub is_external_urls_required: bool,
}

/// One discovered REST endpoint.
#[derive(Clone, Debug, PartialEq, Eq)]
pub struct RouteObject {
    pub route: String,
    pub method: String,
    pub is_route_dynamic: bool,
    pub request_body: Option<String>,
    pub response: Option<String>,
}

/// The mathematical image of a `RouteObject`.
pub struct RouteObjectView {
    pub route: Seq<char>,
    pub method: Seq<char>,
    pub is_route_dynamic: bool,
    pub request_body: Option<Seq<char>>,
    pub response: Option<Seq<char>>,
}

impl View for RouteObject {
    type V = RouteObjectView;

    open spec fn view(&self) -> RouteObjectView {
        RouteObjectView {
            route: self.route@,
            method: self.method@,
            is_route_dynamic: self.is_route_dynamic,
            request_body: self.request_body.deep_view(),
            response: self.response.deep_view(),
        }
    }
}

impl DeepView for RouteObject {
    type V = RouteObjectView;

    open spec fn deep_view(&self) -> RouteObjectView {
        self.view()
    }
}

/// The shared project state record.
#[derive(Clone, Debug, PartialEq, Eq)]
pub struct FactSheet {
    /// Free-text project description, immutable after creation.
    pub project_description: String,
    /// Structural project scope, written once by the architect agent.
    pub project_scope: Option<ProjectScope>,
    /// Ordered sequence of referenced external URLs.
    pub external_urls: Vec<String>,
    /// Generated backend source text, overwritten on each iteration.
    pub backend_code: Option<String>,
    /// Discovered API route descriptors, written once from generated code.
    pub api_endpoint_schema: Option<Vec<RouteObject>>,
}

/// The mathematical image of a `FactSheet`.
pub struct FactSheetView {
    pub project_description: Seq<char>,
    pub project_scope: Option<ProjectScope>,
    pub external_urls: Seq<Seq<char>>,
    pub backend_code: Option<Seq<char>>,
    pub api_endpoint_schema: Option<Seq<RouteObjectView>>,
}

impl View for FactSheet {
    type V = FactSheetView;

    open spec fn view(&self) -> FactSheetView {
        FactSheetView {
            project_description: self.project_description@,
            project_scope: self.project_scope,
            external_urls: self.external_urls.deep_view(),
            backend_code: self.backend_code.deep_view(),
            api_endpoint_schema: match self.api_endpoint_schema {
                Some(routes) => Some(routes.deep_view()),
                None => None,
            },
        }
    }
}

impl FactSheet {
    /// A fresh fact sheet holding only the project description.
    pub fn new(project_description: String) -> (r: Self)
        ensures
            r@.project_description == project_description@,
            r@.project_scope is None,
            r@.external_urls == Seq::<Seq<char>>::empty(),
            r@.backend_code is None,
            r@.api_endpoint_schema is None,
    {
        let r = FactSheet {
            project_description,
            project_scope: None,
            external_urls: Vec::new(),
            backend_code: None,
            api_endpoint_schema: None,
        };
        proof {
            assert(r@.external_urls =~= Seq::<Seq<char>>::empty());
        }
        r
    }
}

} // verus!
