use axfetchum::{extract_path_params, HttpMethod, RouteCollection, RouteDefinition};

#[test]
fn extract_no_params() {
    assert!(extract_path_params("/register").is_empty());
    assert!(extract_path_params("/admin/users").is_empty());
}

#[test]
fn extract_single_param() {
    let params = extract_path_params("/admin/users/{id}");
    assert_eq!(params.len(), 1);
    assert_eq!(params[0].name, "id");
    assert_eq!(params[0].position, 0);
}

#[test]
fn extract_multiple_params() {
    let params = extract_path_params("/orgs/{org_id}/users/{user_id}");
    assert_eq!(params.len(), 2);
    assert_eq!(params[0].name, "org_id");
    assert_eq!(params[1].name, "user_id");
}

#[test]
fn route_collection_extend() {
    let mut a = RouteCollection::new();
    a.push(RouteDefinition {
        name: "foo".into(),
        method: HttpMethod::Get,
        path: "/foo".into(),
        auth: false,
        body_type: None,
        response_type: None,
        query_type: None,
        path_params: vec![],
        group: None,
        redirect: false,
    });

    let mut b = RouteCollection::new();
    b.push(RouteDefinition {
        name: "bar".into(),
        method: HttpMethod::Post,
        path: "/bar".into(),
        auth: true,
        body_type: Some("BarRequest".into()),
        response_type: Some("BarResponse".into()),
        query_type: None,
        path_params: vec![],
        group: Some("baz".into()),
        redirect: false,
    });

    a.extend(b);
    assert_eq!(a.len(), 2);
    assert_eq!(a.routes()[1].name, "bar");
}

// ---------------------------------------------------------------------------
// Further cases
// ---------------------------------------------------------------------------

#[test]
fn extract_positions_count_params_only() {
    let params = extract_path_params("/a/{x}/b/{y}/c/{z}");
    let names: Vec<&str> = params.iter().map(|p| p.name.as_str()).collect();
    assert_eq!(names, vec!["x", "y", "z"]);
    let positions: Vec<usize> = params.iter().map(|p| p.position).collect();
    assert_eq!(positions, vec![0, 1, 2]);
}

#[test]
fn extract_ignores_partial_braces() {
    assert!(extract_path_params("/a/{x/b/y}/{").is_empty());
    let params = extract_path_params("/a/{}");
    assert_eq!(params.len(), 1);
    assert_eq!(params[0].name, "");
    let params = extract_path_params("{root}");
    assert_eq!(params.len(), 1);
    assert_eq!(params[0].name, "root");
}

#[test]
fn extract_empty_path() {
    assert!(extract_path_params("").is_empty());
    assert!(extract_path_params("//").is_empty());
}

#[test]
fn method_names() {
    assert_eq!(HttpMethod::Get.as_str(), "GET");
    assert_eq!(HttpMethod::Post.as_str(), "POST");
    assert_eq!(HttpMethod::Put.as_str(), "PUT");
    assert_eq!(HttpMethod::Patch.as_str(), "PATCH");
    assert_eq!(HttpMethod::Delete.as_str(), "DELETE");
}

fn simple_route(name: &str, group: Option<&str>) -> RouteDefinition {
    RouteDefinition {
        name: name.into(),
        method: HttpMethod::Get,
        path: format!("/{name}"),
        auth: false,
        body_type: None,
        response_type: None,
        query_type: None,
        path_params: vec![],
        group: group.map(|g| g.to_string()),
        redirect: false,
    }
}

#[test]
fn collection_basics() {
    let mut c = RouteCollection::new();
    assert!(c.is_empty());
    assert_eq!(c.len(), 0);
    c.push(simple_route("a", None));
    c.push(simple_route("b", Some("g")));
    assert!(!c.is_empty());
    assert_eq!(c.len(), 2);
    let names: Vec<&str> = c.iter().map(|r| r.name.as_str()).collect();
    assert_eq!(names, vec!["a", "b"]);
}

#[test]
fn collection_extend() {
    // The same routes as an `api_routes!` block with a session route, and one
    // with an `emailPassword` group, would record.
    let mut core = RouteCollection::new();
    core.push(RouteDefinition {
        name: "getSession".into(),
        method: HttpMethod::Get,
        path: "/session".into(),
        auth: true,
        body_type: None,
        response_type: Some("SessionResponse".into()),
        query_type: None,
        path_params: extract_path_params("/session"),
        group: None,
        redirect: false,
    });

    let mut email_password = RouteCollection::new();
    email_password.push(RouteDefinition {
        name: "register".into(),
        method: HttpMethod::Post,
        path: "/register".into(),
        auth: false,
        body_type: Some("RegisterRequest".into()),
        response_type: Some("MessageResponse".into()),
        query_type: None,
        path_params: extract_path_params("/register"),
        group: Some("emailPassword".into()),
        redirect: false,
    });

    core.extend(email_password);
    assert_eq!(core.len(), 2);
    assert!(core.routes()[0].group.is_none());
    assert_eq!(core.routes()[1].group.as_deref(), Some("emailPassword"));
}

#[test]
fn extend_keeps_order_of_both() {
    let mut a = RouteCollection::new();
    a.push(simple_route("a1", None));
    a.push(simple_route("a2", None));
    let mut b = RouteCollection::new();
    b.push(simple_route("b1", None));
    a.extend(b);
    let names: Vec<&str> = a.routes().iter().map(|r| r.name.as_str()).collect();
    assert_eq!(names, vec!["a1", "a2", "b1"]);
    let mut e = RouteCollection::new();
    e.extend(RouteCollection::new());
    assert!(e.is_empty());
}

#[test]
fn collection_into_iter() {
    let mut c = RouteCollection::new();
    c.push(simple_route("a", None));
    c.push(simple_route("b", None));
    let mut seen = Vec::new();
    for r in &c {
        seen.push(r.name.clone());
    }
    assert_eq!(seen, vec!["a", "b"]);
    let owned: Vec<String> = c.into_iter().map(|r| r.name).collect();
    assert_eq!(owned, vec!["a", "b"]);
}
