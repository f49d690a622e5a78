use agent_pipeline::backend::improved_code_context;
use agent_pipeline::codec::{parse_project_scope, parse_route_objects};
use agent_pipeline::errors::FatalError;
use agent_pipeline::factsheet::{FactSheet, ProjectScope, RouteObject};

fn fixture() -> FactSheet {
    FactSheet {
        project_description:
            "build a website that fetches and tracks fitness progress with timezone information"
                .to_string(),
        project_scope: Some(ProjectScope {
            is_crud_required: true,
            is_user_login_and_logout: true,
            is_external_urls_required: true,
        }),
        external_urls: vec!["http://worldtimeapi.org/api/timezone".to_string()],
        backend_code: None,
        api_endpoint_schema: None,
    }
}

fn assert_factsheets_equal(a: &FactSheet, b: &FactSheet) {
    assert_eq!(a.project_description, b.project_description);
    assert_eq!(a.project_scope, b.project_scope);
    assert_eq!(a.external_urls, b.external_urls);
    assert_eq!(a.backend_code, b.backend_code);
    let ra = a.api_endpoint_schema.as_ref().map(|v| v.len());
    let rb = b.api_endpoint_schema.as_ref().map(|v| v.len());
    assert_eq!(ra, rb);
}

#[test]
fn factsheet_serializes_to_exact_json() {
    let fs = fixture();
    let expected = "{\"project_description\":\"build a website that fetches and tracks fitness \
                    progress with timezone information\",\"project_scope\":{\"is_crud_required\"\
                    :true,\"is_user_login_and_logout\":true,\"is_external_urls_required\":true},\
                    \"external_urls\":[\"http://worldtimeapi.org/api/timezone\"],\"backend_code\"\
                    :null,\"api_endpoint_schema\":null}";
    assert_eq!(fs.to_json(), expected.to_string());
}

#[test]
fn factsheet_round_trips_through_json() {
    let fs = fixture();
    let parsed = FactSheet::from_json(fs.to_json().as_str()).expect("fixture must round-trip");
    assert_factsheets_equal(&fs, &parsed);
}

#[test]
fn factsheet_with_code_and_routes_round_trips() {
    let mut fs = fixture();
    fs.backend_code = Some(
        "fn main() {\n    let greeting = \"hello \\\"world\\\"\";\n\tprintln!(\"{}\", greeting);\r\n}"
            .to_string(),
    );
    fs.api_endpoint_schema = Some(vec![
        RouteObject {
            route: "/forex_pair".to_string(),
            method: "get".to_string(),
            is_route_dynamic: false,
            request_body: None,
            response: Some("ForexPair".to_string()),
        },
        RouteObject {
            route: "/forex_pair/{id}".to_string(),
            method: "delete".to_string(),
            is_route_dynamic: true,
            request_body: Some("id".to_string()),
            response: None,
        },
    ]);
    let parsed = FactSheet::from_json(fs.to_json().as_str()).expect("state must round-trip");
    assert_factsheets_equal(&fs, &parsed);
    let routes = parsed.api_endpoint_schema.expect("routes survive the round trip");
    assert_eq!(routes[0].route, "/forex_pair");
    assert_eq!(routes[0].method, "get");
    assert!(!routes[0].is_route_dynamic);
    assert_eq!(routes[0].request_body, None);
    assert_eq!(routes[0].response, Some("ForexPair".to_string()));
    assert_eq!(routes[1].route, "/forex_pair/{id}");
    assert!(routes[1].is_route_dynamic);
    assert_eq!(routes[1].request_body, Some("id".to_string()));
}

#[test]
fn empty_description_round_trips() {
    let fs = FactSheet::new(String::new());
    let parsed = FactSheet::from_json(fs.to_json().as_str()).expect("empty state must round-trip");
    assert_factsheets_equal(&fs, &parsed);
}

#[test]
fn factsheet_parses_canonical_fixture_text() {
    let text = "{\"project_description\":\"build a website that fetches and tracks fitness \
                progress with timezone information\",\"project_scope\":{\"is_crud_required\":\
                true,\"is_user_login_and_logout\":true,\"is_external_urls_required\":true},\
                \"external_urls\":[\"http://worldtimeapi.org/api/timezone\"],\"backend_code\":\
                null,\"api_endpoint_schema\":null}";
    let fs = FactSheet::from_json(text).expect("canonical text must parse");
    assert_eq!(
        fs.project_description,
        "build a website that fetches and tracks fitness progress with timezone information"
    );
    let scope = fs.project_scope.expect("scope is populated");
    assert!(scope.is_crud_required && scope.is_user_login_and_logout);
    assert!(scope.is_external_urls_required);
    assert_eq!(fs.external_urls, vec!["http://worldtimeapi.org/api/timezone".to_string()]);
    assert_eq!(fs.backend_code, None);
    assert!(fs.api_endpoint_schema.is_none());
}

#[test]
fn factsheet_rejects_malformed_text() {
    assert_eq!(FactSheet::from_json("not json"), Err(FatalError::DecodeError));
    assert_eq!(FactSheet::from_json(""), Err(FatalError::DecodeError));
    let fs = fixture();
    let mut trailing = fs.to_json();
    trailing.push('x');
    assert_eq!(FactSheet::from_json(trailing.as_str()), Err(FatalError::DecodeError));
}

#[test]
fn factsheet_accepts_trailing_whitespace() {
    let fs = fixture();
    let mut text = fs.to_json();
    text.push_str(" \n\t");
    let parsed = FactSheet::from_json(text.as_str()).expect("trailing whitespace is insignificant");
    assert_factsheets_equal(&fs, &parsed);
}

#[test]
fn factsheet_parses_pretty_printed_text() {
    let text = "{\n  \"project_description\" : \"a fitness tracker\",\n  \"project_scope\" : {\n    \"is_crud_required\" : true,\n    \"is_user_login_and_logout\" : false,\n    \"is_external_urls_required\" : true\n  },\n  \"external_urls\" : [ \"http://worldtimeapi.org/api/timezone\" ],\n  \"backend_code\" : null,\n  \"api_endpoint_schema\" : null\n}\n";
    let fs = FactSheet::from_json(text).expect("pretty-printed text must parse");
    assert_eq!(fs.project_description, "a fitness tracker");
    let scope = fs.project_scope.expect("scope is populated");
    assert!(scope.is_crud_required && !scope.is_user_login_and_logout);
    assert!(scope.is_external_urls_required);
    assert_eq!(fs.external_urls, vec!["http://worldtimeapi.org/api/timezone".to_string()]);
    assert_eq!(fs.backend_code, None);
    assert!(fs.api_endpoint_schema.is_none());
}

#[test]
fn control_characters_escape_and_round_trip() {
    let mut fs = fixture();
    fs.backend_code = Some("a\u{1}b\u{1f}c".to_string());
    let text = fs.to_json();
    assert!(text.contains("a\\u0001b\\u001fc"));
    let parsed = FactSheet::from_json(text.as_str()).expect("control characters round-trip");
    assert_eq!(parsed.backend_code, Some("a\u{1}b\u{1f}c".to_string()));
}

#[test]
fn scope_decodes_from_canonical_response() {
    let response = "{\"is_crud_required\":false,\"is_user_login_and_logout\":true,\
                    \"is_external_urls_required\":false}";
    let scope = parse_project_scope(response).expect("canonical scope must decode");
    assert!(!scope.is_crud_required);
    assert!(scope.is_user_login_and_logout);
    assert!(!scope.is_external_urls_required);
}

#[test]
fn scope_decode_failure_is_a_decode_error() {
    assert_eq!(parse_project_scope("yes"), Err(FatalError::DecodeError));
    let trailing = "{\"is_crud_required\":true,\"is_user_login_and_logout\":true,\
                    \"is_external_urls_required\":true}x";
    assert_eq!(parse_project_scope(trailing), Err(FatalError::DecodeError));
}

#[test]
fn scope_decodes_pretty_printed_response() {
    let response = "{\n  \"is_crud_required\": true,\n  \"is_user_login_and_logout\": false,\n  \"is_external_urls_required\": true\n}\n";
    let scope = parse_project_scope(response).expect("pretty-printed scope must decode");
    assert!(scope.is_crud_required);
    assert!(!scope.is_user_login_and_logout);
    assert!(scope.is_external_urls_required);
}

#[test]
fn route_objects_decode_with_whitespace() {
    let response = "[ {\"route\": \"/items\", \"method\": \"get\", \"is_route_dynamic\": false, \"request_body\": null, \"response\": null} ,\n {\"route\": \"/items/{id}\", \"method\": \"get\", \"is_route_dynamic\": true, \"request_body\": null, \"response\": null} ]\n";
    let routes = parse_route_objects(response).expect("spaced array must decode");
    assert_eq!(routes.len(), 2);
    assert_eq!(routes[0].route, "/items");
    assert!(routes[1].is_route_dynamic);
    let empty = parse_route_objects(" [ ] ").expect("a spaced empty array must decode");
    assert!(empty.is_empty());
}

#[test]
fn route_objects_decode_from_canonical_response() {
    let empty = parse_route_objects("[]").expect("an empty array must decode");
    assert!(empty.is_empty());

    let response = "[{\"route\":\"/items\",\"method\":\"post\",\"is_route_dynamic\":false,\
                    \"request_body\":\"Item\",\"response\":null}]";
    let routes = parse_route_objects(response).expect("a canonical array must decode");
    assert_eq!(routes.len(), 1);
    assert_eq!(routes[0].route, "/items");
    assert_eq!(routes[0].method, "post");
    assert_eq!(routes[0].request_body, Some("Item".to_string()));
    assert_eq!(routes[0].response, None);

    assert_eq!(parse_route_objects("[oops]"), Err(FatalError::DecodeError));
}

#[test]
fn improved_context_embeds_state_snapshot() {
    let mut fs = FactSheet::new("a tiny site".to_string());
    fs.backend_code = Some("fn main() {}".to_string());
    let ctx = improved_code_context(&fs);
    let expected = format!(
        "CODE TEMPLATE: fn main() {{}} \n PROJECT_DESCRIPTION: {} \n",
        fs.to_json()
    );
    assert_eq!(ctx, expected);
}
