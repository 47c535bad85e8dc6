use axfetchum::{handler_name_from_type_name, snake_to_camel, strip_module_paths};

#[test]
fn strip_simple_type() {
    assert_eq!(
        strip_module_paths("myapp::types::UserResponse"),
        "UserResponse"
    );
}

#[test]
fn strip_vec_generic() {
    assert_eq!(
        strip_module_paths("alloc::vec::Vec<myapp::types::UserResponse>"),
        "Vec<UserResponse>"
    );
}

#[test]
fn strip_option_generic() {
    assert_eq!(
        strip_module_paths("core::option::Option<myapp::types::UserResponse>"),
        "Option<UserResponse>"
    );
}

#[test]
fn strip_plain_type() {
    assert_eq!(strip_module_paths("String"), "String");
}

#[test]
fn strip_nested_generic() {
    assert_eq!(
        strip_module_paths("alloc::vec::Vec<core::option::Option<myapp::Foo>>"),
        "Vec<Option<Foo>>"
    );
}

#[test]
fn camel_simple() {
    assert_eq!(snake_to_camel("register"), "register");
}

#[test]
fn camel_two_words() {
    assert_eq!(snake_to_camel("forgot_password"), "forgotPassword");
}

#[test]
fn camel_three_words() {
    assert_eq!(snake_to_camel("list_all_users"), "listAllUsers");
}

#[test]
fn camel_already_camel() {
    assert_eq!(snake_to_camel("listUsers"), "listUsers");
}

#[test]
fn handler_name_simple() {
    assert_eq!(
        handler_name_from_type_name("myapp::plugins::email_password::register"),
        "register"
    );
}

#[test]
fn handler_name_nested() {
    assert_eq!(
        handler_name_from_type_name("myapp::handlers::admin::list_users"),
        "list_users"
    );
}

#[test]
fn handler_name_closure() {
    assert_eq!(
        handler_name_from_type_name("myapp::routes::handler::{{closure}}"),
        "handler"
    );
}

#[test]
fn default_name_via_snake_to_camel() {
    let raw = handler_name_from_type_name("myapp::handlers::list_users");
    let name = snake_to_camel(raw);
    assert_eq!(name, "listUsers");
}

#[test]
fn default_name_no_underscore() {
    let raw = handler_name_from_type_name("myapp::handlers::register");
    let name = snake_to_camel(raw);
    assert_eq!(name, "register");
}

// ---------------------------------------------------------------------------
// Further cases
// ---------------------------------------------------------------------------

#[test]
fn strip_edge_cases() {
    assert_eq!(strip_module_paths("a:::b"), ":b");
    assert_eq!(strip_module_paths("(a::B, c::D)"), "B, D)");
    assert_eq!(strip_module_paths("x::Map<k::K, v::V>"), "Map<K, V>");
    assert_eq!(strip_module_paths("a::"), "");
    assert_eq!(strip_module_paths(""), "");
    assert_eq!(strip_module_paths("std::collections::HashMap<alloc::string::String, u32>"), "HashMap<String, u32>");
}

#[test]
fn strip_is_idempotent() {
    for s in ["a::b::C<d::E>", "a:::b", "x::y< z::w ,q::r>", "plain"] {
        let once = strip_module_paths(s);
        assert_eq!(strip_module_paths(&once), once);
    }
}

#[test]
fn handler_name_edge_cases() {
    assert_eq!(handler_name_from_type_name("register"), "register");
    assert_eq!(handler_name_from_type_name("a::"), "");
    assert_eq!(handler_name_from_type_name("{{closure}}"), "{{closure}}");
    assert_eq!(handler_name_from_type_name("a::{{closure}}::{{closure}}"), "a");
    assert_eq!(handler_name_from_type_name("a:::b"), "b");
    assert_eq!(handler_name_from_type_name("x:::{b}"), "x:");
}

#[test]
fn camel_edge_cases() {
    assert_eq!(snake_to_camel("_private"), "Private");
    assert_eq!(snake_to_camel("a__b"), "aB");
    assert_eq!(snake_to_camel("trailing_"), "trailing");
    assert_eq!(snake_to_camel("get_2fa_code"), "get2faCode");
    assert_eq!(snake_to_camel("über_ß"), "überß");
    assert_eq!(snake_to_camel(""), "");
}

#[test]
fn camel_is_idempotent() {
    for s in ["forgot_password", "_a_b_", "listUsers", "x__y"] {
        let once = snake_to_camel(s);
        assert_eq!(snake_to_camel(&once), once);
        assert!(!once.contains('_'));
    }
}

#[test]
fn stripped_names_hold_no_module_path() {
    for full in [
        "alloc::vec::Vec<myapp::types::UserResponse>",
        "core::option::Option<alloc::string::String>",
        ":::x",
        "std::collections::HashMap<a::K, b::V>",
        "plain",
        "",
    ] {
        let s = strip_module_paths(full);
        assert!(!s.contains("::"), "{s}");
        assert!(s.len() <= full.len());
        assert_eq!(strip_module_paths(&s), s);
    }
    assert_eq!(strip_module_paths(":::x"), ":x");
}
