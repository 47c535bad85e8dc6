use axfetchum::{valid_route_path, ApiRouter, GeneratorConfig, HttpMethod, RouteBuilder};
use axum::extract::{Path, State};
use axum::routing;

#[derive(Clone)]
struct AppState;

struct CreateUserRequest {
    _name: String,
}

struct UserResponse {
    _id: String,
}

struct ListQuery {
    _page: Option<u32>,
}

async fn list_users(State(_state): State<AppState>) -> String {
    String::new()
}

async fn get_user(State(_state): State<AppState>, Path(_id): Path<String>) -> String {
    String::new()
}

async fn create_user(State(_state): State<AppState>, _body: String) -> String {
    String::new()
}

async fn delete_user(State(_state): State<AppState>, Path(_id): Path<String>) {}

/// Starts a Get route; `full` is the handler's full path.
fn get<H, T>(b: ApiRouter<AppState>, path: &str, handler: H, full: &str) -> RouteBuilder<AppState>
where
    H: axum::handler::Handler<T, AppState>,
    T: 'static,
{
    b.route(path, HttpMethod::Get, routing::any(handler), full)
}

/// Starts a Post route; `full` is the handler's full path.
fn post<H, T>(b: ApiRouter<AppState>, path: &str, handler: H, full: &str) -> RouteBuilder<AppState>
where
    H: axum::handler::Handler<T, AppState>,
    T: 'static,
{
    b.route(path, HttpMethod::Post, routing::any(handler), full)
}

/// Starts a Put route; `full` is the handler's full path.
fn put<H, T>(b: ApiRouter<AppState>, path: &str, handler: H, full: &str) -> RouteBuilder<AppState>
where
    H: axum::handler::Handler<T, AppState>,
    T: 'static,
{
    b.route(path, HttpMethod::Put, routing::any(handler), full)
}

/// Starts a Delete route; `full` is the handler's full path.
fn delete<H, T>(b: ApiRouter<AppState>, path: &str, handler: H, full: &str) -> RouteBuilder<AppState>
where
    H: axum::handler::Handler<T, AppState>,
    T: 'static,
{
    b.route(path, HttpMethod::Delete, routing::any(handler), full)
}

#[test]
fn auto_name_from_handler() {
    let (_router, routes) = get(ApiRouter::<AppState>::new(), "/users", list_users, "builder_tests::list_users")
        .response_named("alloc::vec::Vec<builder_tests::UserResponse>")
        .done()
        .build();

    // list_users → listUsers
    assert_eq!(routes.routes()[0].name, "listUsers");
}

#[test]
fn auto_name_single_word() {
    async fn register(State(_s): State<AppState>, _b: String) {}

    let (_router, routes) = post(ApiRouter::<AppState>::new(), "/register", register, "builder_tests::auto_name_single_word::register")
        .body_named("builder_tests::CreateUserRequest")
        .done()
        .build();

    assert_eq!(routes.routes()[0].name, "register");
}

#[test]
fn as_overrides_auto_name() {
    let (_router, routes) = get(ApiRouter::<AppState>::new(), "/users/{id}", get_user, "builder_tests::get_user")
        .response_named("builder_tests::UserResponse")
        .as_("getById")
        .build();

    assert_eq!(routes.routes()[0].name, "getById");
}

#[test]
fn json_shorthand() {
    let (_router, routes) = post(ApiRouter::<AppState>::new(), "/users", create_user, "builder_tests::create_user")
        .json_named("builder_tests::CreateUserRequest", "builder_tests::UserResponse")
        .auth()
        .done()
        .build();

    let r = &routes.routes()[0];
    assert_eq!(r.name, "createUser");
    assert_eq!(r.method, HttpMethod::Post);
    assert!(r.auth);
    assert!(r.body_type.as_ref().unwrap().contains("CreateUserRequest"));
    assert!(r.response_type.as_ref().unwrap().contains("UserResponse"));
}

#[test]
fn json_shorthand_put() {
    async fn update_user(
        State(_s): State<AppState>,
        Path(_id): Path<String>,
        _b: String,
    ) -> String {
        String::new()
    }

    let (_router, routes) = put(ApiRouter::<AppState>::new(), "/users/{id}", update_user, "builder_tests::json_shorthand_put::update_user")
        .json_named("builder_tests::CreateUserRequest", "builder_tests::UserResponse")
        .auth()
        .done()
        .build();

    let r = &routes.routes()[0];
    assert_eq!(r.name, "updateUser"); // auto snake→camel
    assert_eq!(r.method, HttpMethod::Put);
    assert!(r.body_type.as_ref().unwrap().contains("CreateUserRequest"));
    assert!(r.response_type.as_ref().unwrap().contains("UserResponse"));
    assert_eq!(r.path_params[0].name, "id");
}

#[test]
fn builder_full_api() {
    let b = ApiRouter::<AppState>::new().group("users");
    let b = get(b, "/users", list_users, "builder_tests::list_users")
        .response_named("alloc::vec::Vec<builder_tests::UserResponse>")
        .auth()
        .done();
    let b = get(b, "/users/{id}", get_user, "builder_tests::get_user")
        .response_named("builder_tests::UserResponse")
        .auth()
        .as_("getById");
    let b = post(b, "/users", create_user, "builder_tests::create_user")
        .json_named("builder_tests::CreateUserRequest", "builder_tests::UserResponse")
        .auth()
        .done();
    let (_router, routes) = delete(b, "/users/{id}", delete_user, "builder_tests::delete_user").auth().done().build();

    assert_eq!(routes.len(), 4);
    assert_eq!(routes.routes()[0].name, "listUsers");
    assert_eq!(routes.routes()[1].name, "getById"); // overridden
    assert_eq!(routes.routes()[2].name, "createUser");
    assert_eq!(routes.routes()[3].name, "deleteUser");

    // All grouped
    for r in routes.routes() {
        assert_eq!(r.group.as_deref(), Some("users"));
    }
}

#[test]
fn builder_group_switching() {
    let b = ApiRouter::<AppState>::new().group("users");
    let b = get(b, "/users", list_users, "builder_tests::list_users")
        .response_named("alloc::vec::Vec<builder_tests::UserResponse>")
        .done()
        .no_group();
    let b = get(b, "/health", list_users, "builder_tests::list_users").as_("health").group("admin");
    let (_router, routes) = delete(b, "/users/{id}", delete_user, "builder_tests::delete_user").auth().done().build();

    assert_eq!(routes.routes()[0].group.as_deref(), Some("users"));
    assert_eq!(routes.routes()[1].group, None);
    assert_eq!(routes.routes()[2].group.as_deref(), Some("admin"));
}

#[test]
fn builder_merge() {
    let users = get(ApiRouter::<AppState>::new().group("users"), "/users", list_users, "builder_tests::list_users")
        .response_named("alloc::vec::Vec<builder_tests::UserResponse>")
        .done();

    let admin = delete(ApiRouter::<AppState>::new().group("admin"), "/users/{id}", delete_user, "builder_tests::delete_user")
        .auth()
        .done();

    let (_router, routes) = ApiRouter::<AppState>::new()
        .merge(users)
        .merge(admin)
        .build();

    assert_eq!(routes.len(), 2);
    assert_eq!(routes.routes()[0].group.as_deref(), Some("users"));
    assert_eq!(routes.routes()[1].group.as_deref(), Some("admin"));
}

#[test]
fn builder_query_type() {
    let (_router, routes) = get(ApiRouter::<AppState>::new(), "/users", list_users, "builder_tests::list_users")
        .query_named("builder_tests::ListQuery")
        .response_named("alloc::vec::Vec<builder_tests::UserResponse>")
        .done()
        .build();

    let r = &routes.routes()[0];
    assert!(r.query_type.as_ref().unwrap().contains("ListQuery"));
}

#[test]
fn builder_redirect() {
    async fn authorize(State(_s): State<AppState>) {}

    let (_router, routes) =
        get(ApiRouter::<AppState>::new(), "/oauth/{provider}/authorize", authorize, "builder_tests::builder_redirect::authorize")
            .redirect()
            .done()
            .build();

    let r = &routes.routes()[0];
    assert!(r.redirect);
    assert!(!r.auth);
    assert_eq!(r.path_params[0].name, "provider");
    assert_eq!(r.name, "authorize");
}

#[test]
fn builder_generates_valid_ts() {
    let b = ApiRouter::<AppState>::new().group("users");
    let b = get(b, "/users", list_users, "builder_tests::list_users")
        .response_named("alloc::vec::Vec<builder_tests::UserResponse>")
        .auth()
        .done();
    let (_router, routes) = post(b, "/users", create_user, "builder_tests::create_user")
        .json_named("builder_tests::CreateUserRequest", "builder_tests::UserResponse")
        .auth()
        .done()
        .build();

    let config = GeneratorConfig {
        factory_name: "createApiClient".into(),
        ..Default::default()
    };

    let output = axfetchum::generate(&routes, &config);
    assert!(output.contains("listUsers"));
    assert!(output.contains("createUser"));
    assert!(output.contains("UserResponse[]")); // Vec<UserResponse> → UserResponse[]
    assert!(output.contains("users:")); // group
}

// ---------------------------------------------------------------------------
// Further cases
// ---------------------------------------------------------------------------

#[test]
fn type_names_are_stripped() {
    let (_router, routes) = get(ApiRouter::<AppState>::new(), "/users", list_users, "builder_tests::list_users")
        .response_named("alloc::vec::Vec<myapp::types::UserResponse>")
        .body_named("myapp::Req")
        .done()
        .build();
    let r = &routes.routes()[0];
    assert_eq!(r.response_type.as_deref(), Some("Vec<UserResponse>"));
    assert_eq!(r.body_type.as_deref(), Some("Req"));
}

#[test]
fn route_paths_axum_accepts() {
    assert!(valid_route_path("/users/{id}"));
    assert!(valid_route_path("/"));
    assert!(!valid_route_path(""));
    assert!(!valid_route_path("users"));
    assert!(!valid_route_path("/users/:id"));
    assert!(!valid_route_path("/files/*rest"));
    assert!(valid_route_path("/files/{*rest}"));
    assert!(valid_route_path("/{*rest}"));
    assert!(valid_route_path("/u-{id}/posts"));
    assert!(valid_route_path("/a:b/c*"));
    assert!(!valid_route_path("/a/*c"));
    assert!(!valid_route_path("/files/{*rest}/x"));
    assert!(!valid_route_path("/{"));
    assert!(!valid_route_path("/a}"));
    assert!(!valid_route_path("/{a}{b}"));
    assert!(!valid_route_path("/{}"));
    assert!(!valid_route_path("/{*}"));
    assert!(!valid_route_path("/users/{id}x"));
    assert!(!valid_route_path("/{a/b}"));
    // Escaped braces are literal text, also inside a name.
    assert!(valid_route_path("/a{{b}}"));
    assert!(valid_route_path("/{{x}}/{id}"));
    assert!(valid_route_path("/{a{b}"));
    assert!(valid_route_path("/{a{{b}"));
    assert!(valid_route_path("/{x}}y}"));
    assert!(valid_route_path("/{*}}}"));
    assert!(valid_route_path("/{/x}"));
    assert!(!valid_route_path("/{x}}}y}"));
    assert!(!valid_route_path("/{}}x}"));
    assert!(!valid_route_path("/a}"));
    assert!(!valid_route_path("/{/:x}"));
    let many = |n: usize| (0..n).map(|i| format!("/{{p{i}}}")).collect::<String>();
    assert!(valid_route_path(&many(25)));
    assert!(!valid_route_path(&many(26)));
}

#[test]
fn overlapping_routes_are_refused() {
    let b = get(ApiRouter::<AppState>::new(), "/users", list_users, "builder_tests::list_users").done();
    let b = get(b, "/users/{id}", get_user, "builder_tests::get_user").done();
    let b = get(b, "/files/{*rest}", list_users, "builder_tests::list_users").done();

    // The same method twice on one path.
    assert!(!b.can_route("/users", &HttpMethod::Get));
    // Another method on a registered path.
    assert!(b.can_route("/users", &HttpMethod::Post));
    // The same shape under another capture name.
    assert!(!b.can_route("/users/{user_id}", &HttpMethod::Delete));
    // A catch-all where a capture is registered, and the other way round.
    assert!(!b.can_route("/users/{*rest}", &HttpMethod::Get));
    assert!(!b.can_route("/files/{name}", &HttpMethod::Get));
    // Static segments beside captures and catch-alls.
    assert!(b.can_route("/users/new", &HttpMethod::Get));
    assert!(b.can_route("/files/index", &HttpMethod::Get));
    assert!(b.can_route("/users/{id}/posts", &HttpMethod::Get));
    // A path axum refuses.
    assert!(!b.can_route("/users/:id", &HttpMethod::Get));

    // What `can_route` takes, axum takes.
    let b = post(b, "/users", create_user, "builder_tests::create_user").done();
    let b = get(b, "/users/new", list_users, "builder_tests::list_users").done();
    let b = get(b, "/files/index", list_users, "builder_tests::list_users").done();
    let (_router, routes) = delete(b, "/users/{id}", delete_user, "builder_tests::delete_user").done().build();
    assert_eq!(routes.len(), 7);
}

#[test]
fn merging_checks_both_records() {
    let a = get(ApiRouter::<AppState>::new(), "/users", list_users, "builder_tests::list_users").done();
    let same = get(ApiRouter::<AppState>::new(), "/users", list_users, "builder_tests::list_users").done();
    let renamed = get(ApiRouter::<AppState>::new(), "/users/{x}", get_user, "builder_tests::get_user").done();
    let other = post(ApiRouter::<AppState>::new(), "/users", create_user, "builder_tests::create_user").done();
    let b = get(a, "/users/{id}", get_user, "builder_tests::get_user").done();

    assert!(!b.can_merge(&same));
    assert!(!b.can_merge(&renamed));
    assert!(b.can_merge(&other));
    assert!(b.can_merge(&ApiRouter::<AppState>::new()));

    let merged = b.merge(other);
    assert!(!merged.can_route("/users", &HttpMethod::Post));
    let (_router, routes) = merged.build();
    assert_eq!(routes.len(), 3);
}

#[test]
fn default_builder_is_empty() {
    let (_router, routes) = ApiRouter::<AppState>::default().build();
    assert!(routes.is_empty());
}

#[test]
fn accepted_pairs_register_in_axum() {
    let paths = [
        "/", "/users", "/users/", "/users/{id}", "/users/{name}", "/users/{id}/posts",
        "/users/{*rest}", "/users/new", "/u{x}", "/u", "/{a}", "/{*all}", "/files/{*p}",
        "/files/x", "/a-{b}", "/a-{c}/d", "/a-b", "/{a}/{b}", "/{a}/b", "/x/{a}", "/x/{*b}",
        "/x/{a}/{*b}", "/x/y/{*b}", "/a{{b}}", "/a{{b}}/{c}", "/{a{b}", "/{{a}}", "/{x}}y}",
        "/{*}}}", "/{/x}",
    ];
    let mut accepted = 0;
    for p in paths {
        for q in paths {
            let b = get(ApiRouter::<AppState>::new(), p, list_users, "builder_tests::list_users").done();
            if b.can_route(q, &HttpMethod::Post) {
                accepted += 1;
                let b = post(b, q, create_user, "builder_tests::create_user").done();
                let (router, routes) = b.build();
                let _router: axum::Router = router.with_state(AppState);
                assert_eq!(routes.len(), 2);
            }
        }
    }
    assert!(accepted > paths.len());
}

#[test]
fn method_routers_serve_only_the_recorded_method() {
    // Whatever method router comes in, it is registered for the given method only.
    let b = ApiRouter::<AppState>::new()
        .route("/users", HttpMethod::Get, routing::post(create_user), "builder_tests::create_user")
        .done();
    assert!(b.can_route("/users", &HttpMethod::Post));
    let b = b
        .route("/users", HttpMethod::Post, routing::get(list_users).post(create_user), "builder_tests::create_user")
        .done();
    let (router, routes) = b.build();
    let _router: axum::Router = router.with_state(AppState);
    assert_eq!(routes.len(), 2);
}

#[test]
fn escaped_paths_register() {
    let b = get(ApiRouter::<AppState>::new(), "/a{{b}}", list_users, "builder_tests::list_users").done();
    assert!(!b.can_route("/a{{b}}", &HttpMethod::Get));
    assert!(b.can_route("/a{b}", &HttpMethod::Get));
    let b = get(b, "/a{b}", list_users, "builder_tests::list_users").done();
    let (_router, routes) = b.build();
    assert_eq!(routes.routes()[0].path, "/a{{b}}");
}
