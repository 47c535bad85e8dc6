use axfetchum::{
    command_parts,
    command_words, base_type_name, build_path_template, check_in_sync, compute_import_prefix, derive_type_name,
    extract_path_params, generate, generate_params, generate_request_options,
    generate_route_method, is_primitive_type, rust_type_to_ts, unwrap_inner, CheckError,
    GeneratorConfig, HttpMethod, RouteCollection, RouteDefinition,
};

#[test]
fn test_rust_type_to_ts_primitives() {
    assert_eq!(rust_type_to_ts("String"), "string");
    assert_eq!(rust_type_to_ts("bool"), "boolean");
    assert_eq!(rust_type_to_ts("u32"), "number");
    assert_eq!(rust_type_to_ts("i64"), "number");
    assert_eq!(rust_type_to_ts("Uuid"), "string");
    assert_eq!(rust_type_to_ts("f64"), "number");
}

#[test]
fn test_rust_type_to_ts_vec() {
    assert_eq!(rust_type_to_ts("Vec<String>"), "string[]");
    assert_eq!(rust_type_to_ts("Vec<UserResponse>"), "UserResponse[]");
}

#[test]
fn test_rust_type_to_ts_option() {
    assert_eq!(rust_type_to_ts("Option<String>"), "string | null");
    assert_eq!(
        rust_type_to_ts("Option<UserResponse>"),
        "UserResponse | null"
    );
}

#[test]
fn test_rust_type_to_ts_custom() {
    assert_eq!(rust_type_to_ts("RegisterRequest"), "RegisterRequest");
    assert_eq!(rust_type_to_ts("LoginResponse"), "LoginResponse");
}

#[test]
fn test_build_path_template_no_params() {
    assert_eq!(build_path_template("/register"), "\"/register\"");
    assert_eq!(build_path_template("/admin/users"), "\"/admin/users\"");
}

#[test]
fn test_build_path_template_with_params() {
    assert_eq!(
        build_path_template("/admin/users/{id}"),
        "`/admin/users/${id}`"
    );
    assert_eq!(
        build_path_template("/orgs/{org}/users/{id}"),
        "`/orgs/${org}/users/${id}`"
    );
}

#[test]
fn test_derive_type_name() {
    assert_eq!(derive_type_name("createYAuthClient"), "YAuthClient");
    assert_eq!(derive_type_name("createApiClient"), "ApiClient");
    assert_eq!(derive_type_name("myClient"), "myClient");
}

#[test]
fn test_is_primitive_type() {
    assert!(is_primitive_type("String"));
    assert!(is_primitive_type("bool"));
    assert!(is_primitive_type("u32"));
    assert!(is_primitive_type("Uuid"));
    assert!(!is_primitive_type("RegisterRequest"));
    assert!(is_primitive_type("Vec<String>"));
    assert!(!is_primitive_type("Vec<UserResponse>"));
}

#[test]
fn test_base_type_name() {
    assert_eq!(base_type_name("String"), None);
    assert_eq!(base_type_name("RegisterRequest"), Some("RegisterRequest"));
    assert_eq!(base_type_name("Vec<UserResponse>"), Some("UserResponse"));
    assert_eq!(base_type_name("Vec<String>"), None);
    assert_eq!(base_type_name("Option<UserResponse>"), Some("UserResponse"));
}

#[test]
fn test_compute_import_prefix_explicit() {
    let config = GeneratorConfig {
        type_import_prefix: "../types".into(),
        ..Default::default()
    };
    assert_eq!(compute_import_prefix(&config), "../types");
}

// ---------------------------------------------------------------------------
// Further cases
// ---------------------------------------------------------------------------

#[test]
fn type_names_nested_and_spaced() {
    assert_eq!(rust_type_to_ts("Vec<Option<User>>"), "(User | null)[]");
    assert_eq!(rust_type_to_ts("Vec< Option<i32> >"), "(number | null)[]");
    assert_eq!(rust_type_to_ts("Option<Vec<Option<Foo>>>"), "(Foo | null)[] | null");
    assert_eq!(rust_type_to_ts("Vec<Vec<Option<Foo>>>"), "(Foo | null)[][]");
    assert_eq!(rust_type_to_ts("Option<Vec<u8>>"), "number[] | null");
    assert_eq!(rust_type_to_ts("  Vec< String >  "), "string[]");
    assert_eq!(rust_type_to_ts("&str"), "string");
    assert_eq!(rust_type_to_ts("usize"), "number");
    assert_eq!(rust_type_to_ts("Vec<"), "Vec<");
    assert_eq!(rust_type_to_ts("Vec<>"), "[]");
    assert_eq!(rust_type_to_ts("HashMap<String, u32>"), "HashMap<String, u32>");
    assert_eq!(unwrap_inner(" Option<Vec< Foo >> "), "Foo");
    assert_eq!(unwrap_inner("Foo"), "Foo");
    assert_eq!(base_type_name("Option<Vec<i64>>"), None);
}

#[test]
fn import_prefix_computed() {
    let mk = |output: &str, bindings: &str| GeneratorConfig {
        output_path: output.into(),
        bindings_dir: bindings.into(),
        ..Default::default()
    };
    assert_eq!(compute_import_prefix(&GeneratorConfig::default()), "./bindings");
    assert_eq!(
        compute_import_prefix(&mk("./packages/client/src/generated.ts", "./bindings")),
        "../../../bindings"
    );
    assert_eq!(
        compute_import_prefix(&mk("./src/generated.ts", "./src/bindings")),
        "./bindings"
    );
    assert_eq!(
        compute_import_prefix(&mk("web/src/api/client.ts", "web/src/types/gen")),
        "../types/gen"
    );
    assert_eq!(compute_import_prefix(&mk("client.ts", "bindings")), "./bindings");
    assert_eq!(compute_import_prefix(&mk("a/./b//c.ts", "a/b")), "./");
}

#[test]
fn default_config() {
    let c = GeneratorConfig::default();
    assert_eq!(c.bindings_dir, "./bindings");
    assert_eq!(c.output_path, "./generated.ts");
    assert_eq!(c.factory_name, "createApiClient");
    assert!(c.enable_groups);
    assert_eq!(c.error_class_name, "ApiError");
    assert_eq!(c.options_interface_name, "ClientOptions");
    assert_eq!(c.default_credentials, "include");
    assert_eq!(c.type_import_prefix, "");
    assert!(c.format_command.is_none());
}

fn route(
    name: &str,
    method: HttpMethod,
    path: &str,
    auth: bool,
    body: Option<&str>,
    response: Option<&str>,
    query: Option<&str>,
    group: Option<&str>,
    redirect: bool,
) -> RouteDefinition {
    RouteDefinition {
        name: name.into(),
        method,
        path: path.into(),
        auth,
        body_type: body.map(|s| s.to_string()),
        response_type: response.map(|s| s.to_string()),
        query_type: query.map(|s| s.to_string()),
        path_params: extract_path_params(path),
        group: group.map(|s| s.to_string()),
        redirect,
    }
}

#[test]
fn params_and_options() {
    let r = route(
        "update",
        HttpMethod::Put,
        "/orgs/{org}/items/{id}",
        true,
        Some("Vec<Item>"),
        None,
        Some("Filter"),
        None,
        false,
    );
    assert_eq!(
        generate_params(&r),
        "org: string, id: string, body: Item[], query?: Filter"
    );
    assert_eq!(
        generate_request_options(&r),
        ", { method: \"PUT\", auth: true, body, query }"
    );
    let plain = route("list", HttpMethod::Get, "/items", false, None, None, None, None, false);
    assert_eq!(generate_params(&plain), "");
    assert_eq!(generate_request_options(&plain), "");
}

#[test]
fn route_methods() {
    let mut out = String::new();
    let r = route("list", HttpMethod::Get, "/items", false, None, Some("Vec<Item>"), None, None, false);
    generate_route_method(&mut out, &r, 4);
    assert_eq!(out, "list: () => request<Item[]>(\"/items\")");

    let mut out = String::new();
    let r = route("remove", HttpMethod::Delete, "/items/{id}", true, None, None, None, None, false);
    generate_route_method(&mut out, &r, 4);
    assert_eq!(
        out,
        "remove: (id: string) =>\n      request<void>(`/items/${id}`, { method: \"DELETE\", auth: true })"
    );

    let mut out = String::new();
    let r = route("login", HttpMethod::Get, "/oauth/{provider}", false, None, None, None, None, true);
    generate_route_method(&mut out, &r, 4);
    assert_eq!(out, "login: (provider: string) => `${options.baseUrl}/oauth/${provider}`");

    let mut out = String::new();
    let r = route("home", HttpMethod::Get, "/home", false, None, None, None, None, true);
    generate_route_method(&mut out, &r, 4);
    assert_eq!(out, "home: () => `${options.baseUrl}/home`");
}

#[test]
fn redirect_with_query() {
    let mut out = String::new();
    let r = route(
        "authorize",
        HttpMethod::Get,
        "/oauth/{provider}/authorize",
        false,
        None,
        None,
        Some("AuthorizeQuery"),
        None,
        true,
    );
    generate_route_method(&mut out, &r, 4);
    let expected = "authorize: (provider: string, query?: AuthorizeQuery) => {\n\
\x20     let url = `${options.baseUrl}/oauth/${provider}/authorize`;\n\
\x20     if (query) {\n\
\x20       const params = new URLSearchParams();\n\
\x20       for (const [key, value] of Object.entries(query)) {\n\
\x20         if (value !== undefined && value !== null) params.set(key, String(value));\n\
\x20       }\n\
\x20       const qs = params.toString();\n\
\x20       if (qs) url += `?${qs}`;\n\
\x20     }\n\
\x20     return url;\n\
\x20   }";
    assert_eq!(out, expected);
}

fn sample_routes() -> RouteCollection {
    let mut c = RouteCollection::new();
    c.push(route("getSession", HttpMethod::Get, "/session", true, None, Some("SessionResponse"), None, None, false));
    c.push(route(
        "register",
        HttpMethod::Post,
        "/register",
        false,
        Some("RegisterRequest"),
        Some("MessageResponse"),
        None,
        Some("emailPassword"),
        false,
    ));
    c.push(route(
        "getUser",
        HttpMethod::Get,
        "/admin/users/{id}",
        true,
        None,
        Some("UserResponse"),
        None,
        Some("admin"),
        false,
    ));
    c.push(route(
        "listUsers",
        HttpMethod::Get,
        "/admin/users",
        true,
        None,
        Some("Vec<UserResponse>"),
        Some("ListQuery"),
        Some("admin"),
        false,
    ));
    c
}

#[test]
fn generate_grouped_client() {
    let out = generate(&sample_routes(), &GeneratorConfig::default());
    let head = "// Auto-generated by axum-ts-client. Do not edit.\n\n\
import type { ListQuery } from \"./bindings/ListQuery\";\n\
import type { MessageResponse } from \"./bindings/MessageResponse\";\n\
import type { RegisterRequest } from \"./bindings/RegisterRequest\";\n\
import type { SessionResponse } from \"./bindings/SessionResponse\";\n\
import type { UserResponse } from \"./bindings/UserResponse\";\n\
\n\
export class ApiError extends Error {\n";
    assert!(out.starts_with(head), "{out}");
    assert!(out.contains("export interface ClientOptions {\n"));
    assert!(out.contains("  onError?: (error: ApiError) => void;\n"));
    assert!(out.contains("function createRequest(options: ClientOptions) {\n  const { baseUrl, credentials = \"include\" } = options;\n"));
    assert!(out.contains("      const error = new ApiError(message, response.status, errorBody);\n"));
    assert!(!out.contains("__ERROR__") && !out.contains("__OPTS__") && !out.contains("__CREDS__"));
    let tail = "export function createApiClient(options: ClientOptions) {\n\
\x20 const request = createRequest(options);\n\
\n\
\x20 return {\n\
\x20   getSession: () => request<SessionResponse>(\"/session\", { auth: true }),\n\
\n\
\x20   admin: {\n\
\x20     getUser: (id: string) =>\n\
\x20       request<UserResponse>(`/admin/users/${id}`, { auth: true }),\n\
\x20     listUsers: (query?: ListQuery) =>\n\
\x20       request<UserResponse[]>(\"/admin/users\", { auth: true, query }),\n\
\x20   },\n\
\n\
\x20   emailPassword: {\n\
\x20     register: (body: RegisterRequest) =>\n\
\x20       request<MessageResponse>(\"/register\", { method: \"POST\", body }),\n\
\x20   },\n\
\x20 };\n\
}\n\
\n\
export type ApiClient = ReturnType<typeof createApiClient>;\n";
    assert!(out.ends_with(tail), "{out}");
}

#[test]
fn generate_flat_client() {
    let config = GeneratorConfig {
        enable_groups: false,
        factory_name: "makeClient".into(),
        error_class_name: "YErr".into(),
        options_interface_name: "YOpts".into(),
        default_credentials: "same-origin".into(),
        type_import_prefix: "@/types".into(),
        ..Default::default()
    };
    let out = generate(&sample_routes(), &config);
    assert!(out.contains("import type { UserResponse } from \"@/types/UserResponse\";\n"));
    assert!(out.contains("export class YErr extends Error {\n"));
    assert!(out.contains("    this.name = \"YErr\";\n"));
    assert!(out.contains("credentials = \"same-origin\""));
    let tail = "  return {\n\
\x20   getSession: () => request<SessionResponse>(\"/session\", { auth: true }),\n\
\x20   register: (body: RegisterRequest) =>\n\
\x20     request<MessageResponse>(\"/register\", { method: \"POST\", body }),\n\
\x20   getUser: (id: string) =>\n\
\x20     request<UserResponse>(`/admin/users/${id}`, { auth: true }),\n\
\x20   listUsers: (query?: ListQuery) =>\n\
\x20     request<UserResponse[]>(\"/admin/users\", { auth: true, query }),\n\
\x20 };\n\
}\n\
\n\
export type makeClient = ReturnType<typeof makeClient>;\n";
    assert!(out.ends_with(tail), "{out}");
}

#[test]
fn generate_empty_collection() {
    let out = generate(&RouteCollection::new(), &GeneratorConfig::default());
    assert!(out.starts_with("// Auto-generated by axum-ts-client. Do not edit.\n\nexport class ApiError"));
    assert!(out.ends_with("  return {\n  };\n}\n\nexport type ApiClient = ReturnType<typeof createApiClient>;\n"));
}

#[test]
fn grouped_first_group_without_ungrouped() {
    let mut c = RouteCollection::new();
    c.push(route("b", HttpMethod::Get, "/b", false, None, None, None, Some("zeta"), false));
    c.push(route("a", HttpMethod::Get, "/a", false, None, None, None, Some("alpha"), false));
    let out = generate(&c, &GeneratorConfig::default());
    assert!(out.contains(
        "  return {\n    alpha: {\n      a: () => request<void>(\"/a\"),\n    },\n\n    zeta: {\n      b: () => request<void>(\"/b\"),\n    },\n  };\n"
    ), "{out}");
}

#[test]
fn generate_is_deterministic_and_imports_once() {
    let a = generate(&sample_routes(), &GeneratorConfig::default());
    let b = generate(&sample_routes(), &GeneratorConfig::default());
    assert_eq!(a, b);
    assert_eq!(a.matches("import type { UserResponse }").count(), 1);
}

#[test]
fn check_in_sync_reports_out_of_sync() {
    assert!(check_in_sync("abc", "abc", "./g.ts").is_ok());
    match check_in_sync("abc", "abd", "./g.ts") {
        Err(CheckError::OutOfSync { path }) => assert_eq!(path, "./g.ts"),
        other => panic!("unexpected {other:?}"),
    }
}

#[test]
fn check_error_messages() {
    let e = CheckError::OutOfSync { path: "./g.ts".into() };
    assert_eq!(
        e.message(),
        "Generated TypeScript client is out of sync with './g.ts'. Run the generate command to update it."
    );
    let e = CheckError::GenerateError("boom".into());
    assert_eq!(e.message(), "Generation error: boom");
    let e = CheckError::ReadError {
        path: "x.ts".into(),
        error: std::io::Error::other("gone"),
    };
    assert_eq!(e.message(), "Failed to read 'x.ts': gone");
    let e = CheckError::FormatError {
        command: "fmt".into(),
        error: std::io::Error::other("no such program"),
    };
    assert_eq!(e.message(), "Format command 'fmt' failed: no such program");
}

#[test]
fn vec_and_option_compose() {
    for inner in ["String", "u8", "Custom", "Vec<bool>"] {
        let vec = format!("Vec<{inner}>");
        assert_eq!(rust_type_to_ts(&vec), format!("{}[]", rust_type_to_ts(inner)));
        let opt = format!("Option<{inner}>");
        assert_eq!(rust_type_to_ts(&opt), format!("{} | null", rust_type_to_ts(inner)));
    }
    for inner in ["Option<String>", " Option<Custom> "] {
        let vec = format!("Vec<{inner}>");
        assert_eq!(rust_type_to_ts(&vec), format!("({})[]", rust_type_to_ts(inner)));
    }
}

#[test]
fn surrounding_whitespace_is_ignored() {
    for t in ["String", "Vec<Option<Foo>>", "Option<u8>", "Custom", ""] {
        let padded = format!(" \t{t}\n ");
        assert_eq!(rust_type_to_ts(&padded), rust_type_to_ts(t));
        assert_eq!(unwrap_inner(&padded), unwrap_inner(t));
    }
}

#[test]
fn unwrap_inner_is_final() {
    for t in ["Vec<Option<Foo>>", " String ", "Option< Vec<u8> >", "Vec<"] {
        let once = unwrap_inner(t);
        assert_eq!(once, once.trim());
        assert_eq!(unwrap_inner(once), once);
    }
    assert_eq!(unwrap_inner("Vec<Option<Foo>>"), "Foo");
    assert_eq!(unwrap_inner(" String "), "String");
}

#[test]
fn primitive_iff_no_import() {
    for t in ["String", "Vec<u8>", "Option<Uuid>", "Foo", "Vec<Option<Bar>>", "&str", "isize"] {
        assert_eq!(is_primitive_type(t), base_type_name(t).is_none());
    }
}

#[test]
fn factory_type_names() {
    assert_eq!(derive_type_name("create"), "");
    assert_eq!(derive_type_name("createX"), "X");
    assert_eq!(derive_type_name("Create"), "Create");
}

#[test]
fn format_command_words() {
    assert_eq!(
        command_words("bun biome check --write --unsafe"),
        vec!["bun", "biome", "check", "--write", "--unsafe"]
    );
    assert_eq!(command_words("  fmt \t -w\n"), vec!["fmt", "-w"]);
    assert!(command_words("").is_empty());
    assert!(command_words(" \u{3000} ").is_empty());
}

#[test]
fn format_command_parts() {
    let (program, args) = command_parts("  prettier --write ").unwrap();
    assert_eq!(program, "prettier");
    assert_eq!(args, vec!["--write"]);
    let (program, args) = command_parts("fmt").unwrap();
    assert_eq!(program, "fmt");
    assert!(args.is_empty());
    assert!(command_parts("").is_none());
    assert!(command_parts(" \t ").is_none());
}

#[test]
fn flat_equals_grouped_without_groups() {
    let routes = sample_routes();
    let mut without = RouteCollection::new();
    for r in routes.iter() {
        let mut r = r.clone();
        r.group = None;
        without.push(r);
    }
    let flat = GeneratorConfig { enable_groups: false, ..Default::default() };
    let grouped = GeneratorConfig { enable_groups: true, ..Default::default() };
    assert_eq!(generate(&routes, &flat), generate(&without, &grouped));
    assert_eq!(generate(&without, &flat), generate(&without, &grouped));
}

#[test]
fn grouped_output_ignores_interleaving() {
    let routes = sample_routes();
    let r = routes.routes();
    let mut swapped_within = RouteCollection::new();
    for i in [0usize, 1, 3, 2] {
        swapped_within.push(r[i].clone());
    }
    let cfg = GeneratorConfig { enable_groups: true, ..Default::default() };
    // Routes 2 and 3 share the group `admin`: moving 3 before 2 changes the order within it.
    assert_ne!(generate(&routes, &cfg), generate(&swapped_within, &cfg));
    let mut interleaved = RouteCollection::new();
    for i in [2usize, 0, 3, 1] {
        interleaved.push(r[i].clone());
    }
    assert_eq!(generate(&routes, &cfg), generate(&interleaved, &cfg));
}

#[test]
fn fetch_without_params_takes_any_indent() {
    let mut out = String::new();
    let r = route("list", HttpMethod::Get, "/items", false, None, None, None, None, false);
    generate_route_method(&mut out, &r, usize::MAX);
    assert_eq!(out, "list: () => request<void>(\"/items\")");
}
