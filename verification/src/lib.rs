//! Typed TypeScript API clients generated from route metadata.
//!
//! Route metadata is recorded either by hand in a [`RouteCollection`] or with the
//! [`ApiRouter`] builder, which also builds the Axum router. [`generate`] turns the
//! metadata into a TypeScript client with typed fetch wrappers.

mod builder;
mod command;
mod generator;
mod import_path;
mod laws;
mod names;
mod order;
mod route_paths;
mod route_table;
mod snippets;
mod text;
mod ts_types;
mod types;

pub use builder::{ApiRouter, RouteBuilder};
pub use command::{command_parts, command_words};
pub use generator::{
    check_in_sync, compute_import_prefix, generate, generate_flat_routes,
    generate_grouped_routes, generate_params, generate_redirect_method,
    generate_request_options, generate_route_method, CheckError, GeneratorConfig,
};
pub use route_paths::valid_route_path;
pub use names::{handler_name_from_type_name, snake_to_camel, strip_module_paths};
pub use snippets::{build_path_template, derive_type_name};
pub use ts_types::{base_type_name, is_primitive_type, rust_type_to_ts, unwrap_inner};
pub use types::{extract_path_params, HttpMethod, PathParam, RouteCollection, RouteDefinition};
