//! The TypeScript client generator.

use vstd::prelude::*;

use crate::import_path::{relative_import_prefix, relative_prefix};
use crate::order::{insert_sorted, lemma_is_sorted_listing, lists_sorted, sorted_listing, strictly_sorted};
use crate::snippets::{
    join, path_template, push_joined, push_path_template, push_replaced, push_spaces,
    replace_all, spaces, string_seqs, type_name_for, derive_type_name,
};
use crate::text::{char_seqs, chars_eq, chars_eq_str, push_chars, str_chars, sub_chars};
use crate::ts_types::{base_type, base_type_name, push_ts_type, ts_type};
use crate::types::{method_name, HttpMethod, PathParam, RouteCollection, RouteDefinition};

verus! {

/// An I/O error, as the file operations around the generator report it.
#[verifier::external_type_specification]
#[verifier::external_body]
pub struct ExIoError(std::io::Error);

/// Configuration for the TypeScript client generator.
#[derive(Debug, Clone)]
pub struct GeneratorConfig {
    /// Directory where ts-rs generates type bindings (e.g., `"./bindings"`).
    pub bindings_dir: String,
    /// Output path for the generated client file.
    pub output_path: String,
    /// Name of the factory function (e.g., `"createYAuthClient"`).
    pub factory_name: String,
    /// Whether to generate grouped nested objects.
    pub enable_groups: bool,
    /// Name of the error class (e.g., `"ApiError"` or `"YAuthError"`).
    pub error_class_name: String,
    /// Name of the options interface (e.g., `"ClientOptions"` or `"YAuthClientOptions"`).
    pub options_interface_name: String,
    /// Default `RequestCredentials` value.
    pub default_credentials: String,
    /// Import path prefix for types (relative from generated file to bindings dir).
    /// If empty, computed from bindings_dir relative to output_path.
    pub type_import_prefix: String,
    /// Optional shell command to format the generated file (e.g., `"biome format --write"`).
    /// The output file path is appended as the last argument.
    pub format_command: Option<String>,
}

impl Default for GeneratorConfig {
    fn default() -> (res: Self)
        ensures
            res.bindings_dir@ == "./bindings"@,
            res.output_path@ == "./generated.ts"@,
            res.factory_name@ == "createApiClient"@,
            res.enable_groups,
            res.error_class_name@ == "ApiError"@,
            res.options_interface_name@ == "ClientOptions"@,
            res.default_credentials@ == "include"@,
            res.type_import_prefix@ == Seq::<char>::empty(),
            res.format_command is None,
    {
        GeneratorConfig {
            bindings_dir: String::from_str("./bindings"),
            output_path: String::from_str("./generated.ts"),
            factory_name: String::from_str("createApiClient"),
            enable_groups: true,
            error_class_name: String::from_str("ApiError"),
            options_interface_name: String::from_str("ClientOptions"),
            default_credentials: String::from_str("include"),
            type_import_prefix: String::new(),
            format_command: None,
        }
    }
}

/// Error returned by the check when the generated output does not match the committed file.
#[derive(Debug)]
pub enum CheckError {
    /// Generated output differs from the committed file.
    OutOfSync { path: String },
    /// Could not read the committed file.
    ReadError { path: String, error: std::io::Error },
    /// Generation itself failed.
    GenerateError(String),
    /// The format command failed to execute.
    FormatError { command: String, error: std::io::Error },
}

/// `std::io::Error`'s `Display` text. It comes from the operating system for OS
/// errors, so nothing is stated of it.
#[verifier::external_body]
fn io_error_text(error: &std::io::Error) -> String {
    error.to_string()
}

impl CheckError {
    /// The human-readable description of the error.
    pub fn message(&self) -> (res: String)
        ensures
            match self {
                CheckError::OutOfSync { path } => res@
                    == "Generated TypeScript client is out of sync with '"@ + path@
                    + "'. Run the generate command to update it."@,
                CheckError::ReadError { path, error: _ } => exists|t: Seq<char>|
                    res@ == "Failed to read '"@ + path@ + "': "@ + t,
                CheckError::GenerateError(msg) => res@ == "Generation error: "@ + msg@,
                CheckError::FormatError { command, error: _ } => exists|t: Seq<char>|
                    res@ == "Format command '"@ + command@ + "' failed: "@ + t,
            },
    {
        let mut out = String::new();
        match self {
            CheckError::OutOfSync { path } => {
                out.append("Generated TypeScript client is out of sync with '");
                out.append(path.as_str());
                out.append("'. Run the generate command to update it.");
            },
            CheckError::ReadError { path, error } => {
                out.append("Failed to read '");
                out.append(path.as_str());
                out.append("': ");
                let ghost head = out@;
                let text = io_error_text(error);
                out.append(text.as_str());
                assert(out@ == head + text@);
            },
            CheckError::GenerateError(msg) => {
                out.append("Generation error: ");
                out.append(msg.as_str());
            },
            CheckError::FormatError { command, error } => {
                out.append("Format command '");
                out.append(command.as_str());
                out.append("' failed: ");
                let ghost head = out@;
                let text = io_error_text(error);
                out.append(text.as_str());
                assert(out@ == head + text@);
            },
        }
        out
    }
}

// ---------------------------------------------------------------------------
// Import prefix
// ---------------------------------------------------------------------------

/// The import prefix for type imports: the configured one if it is not empty, else
/// the path from the output file's directory to the bindings directory.
pub open spec fn import_prefix(c: GeneratorConfig) -> Seq<char> {
    if c.type_import_prefix@.len() > 0 {
        c.type_import_prefix@
    } else {
        relative_prefix(c.output_path@, c.bindings_dir@)
    }
}

/// Compute the import path prefix for type imports.
pub fn compute_import_prefix(config: &GeneratorConfig) -> (res: String)
    ensures
        res@ == import_prefix(*config),
{
    if config.type_import_prefix.as_str().unicode_len() > 0 {
        return config.type_import_prefix.clone();
    }
    relative_import_prefix(config.output_path.as_str(), config.bindings_dir.as_str())
}

// ---------------------------------------------------------------------------
// One route
// ---------------------------------------------------------------------------

/// The view of an optional string.
pub open spec fn opt_view(o: Option<String>) -> Option<Seq<char>> {
    match o {
        Some(s) => Some(s@),
        None => None,
    }
}

/// `name: string` for each path parameter.
pub open spec fn path_param_parts(ps: Seq<PathParam>) -> Seq<Seq<char>> {
    Seq::new(ps.len(), |i: int| ps[i].name@ + ": string"@)
}

/// `query?: T` for a route with a query type.
pub open spec fn query_parts(r: RouteDefinition) -> Seq<Seq<char>> {
    match r.query_type {
        Some(q) => seq!["query?: "@ + ts_type(q@)],
        None => Seq::<Seq<char>>::empty(),
    }
}

/// The parameters of a route's client function: its path parameters, then `body`,
/// then `query`.
pub open spec fn param_parts(r: RouteDefinition) -> Seq<Seq<char>> {
    path_param_parts(r.path_params@) + match r.body_type {
        Some(b) => seq!["body: "@ + ts_type(b@)],
        None => Seq::<Seq<char>>::empty(),
    } + query_parts(r)
}

/// The entries of the request options object of a route.
pub open spec fn option_parts(r: RouteDefinition) -> Seq<Seq<char>> {
    (if r.method != HttpMethod::Get {
        seq!["method: \""@ + method_name(r.method) + "\""@]
    } else {
        Seq::<Seq<char>>::empty()
    }) + (if r.auth {
        seq!["auth: true"@]
    } else {
        Seq::<Seq<char>>::empty()
    }) + (if r.body_type is Some {
        seq!["body"@]
    } else {
        Seq::<Seq<char>>::empty()
    }) + (if r.query_type is Some {
        seq!["query"@]
    } else {
        Seq::<Seq<char>>::empty()
    })
}

/// The request options argument of a route: empty when there are no entries.
pub open spec fn request_options(r: RouteDefinition) -> Seq<char> {
    if option_parts(r).len() == 0 {
        Seq::<char>::empty()
    } else {
        ", { "@ + join(option_parts(r), ", "@) + " }"@
    }
}

/// The TypeScript type a route's call resolves to.
pub open spec fn return_type(r: RouteDefinition) -> Seq<char> {
    match r.response_type {
        Some(t) => ts_type(t@),
        None => "void"@,
    }
}

/// A fetch route: `name: (params) => request<T>(path, options)`, the call on a line
/// of its own indented by `indent + 2` when there are parameters.
pub open spec fn fetch_method(r: RouteDefinition, indent: nat) -> Seq<char> {
    let call = "request<"@ + return_type(r) + ">("@ + path_template(r.path@) + request_options(r)
        + ")"@;
    if param_parts(r).len() == 0 {
        r.name@ + ": () => "@ + call
    } else {
        r.name@ + ": ("@ + join(param_parts(r), ", "@) + ") =>\n"@ + spaces(indent + 2) + call
    }
}

/// The path template without its quotes.
pub open spec fn template_inner(path: Seq<char>) -> Seq<char> {
    path_template(path).subrange(1, path_template(path).len() - 1)
}

/// `head` followed by the body of a redirect route with a query type: it builds the
/// URL and appends the query's defined entries as search parameters.
pub open spec fn with_query_url(head: Seq<char>, inner: Seq<char>, indent: nat) -> Seq<char> {
    let pad = spaces(indent);
    let pad2 = spaces(indent + 2);
    let pad4 = spaces(indent + 4);
    head + pad2 + "let url = `${options.baseUrl}"@ + inner + "`;\n"@ + pad2 + "if (query) {\n"@
        + pad4 + "const params = new URLSearchParams();\n"@ + pad4
        + "for (const [key, value] of Object.entries(query)) {\n"@ + pad4
        + "  if (value !== undefined && value !== null) params.set(key, String(value));\n"@
        + pad4 + "}\n"@ + pad4 + "const qs = params.toString();\n"@ + pad4
        + "if (qs) url += `?${qs}`;\n"@ + pad2 + "}\n"@ + pad2 + "return url;\n"@ + pad + "}"@
}

proof fn lemma_with_query_url_prefix(a: Seq<char>, b: Seq<char>, inner: Seq<char>, indent: nat)
    ensures
        with_query_url(a + b, inner, indent) == a + with_query_url(b, inner, indent),
{
    assert(with_query_url(a + b, inner, indent) =~= a + with_query_url(b, inner, indent));
}

/// A redirect route: a function that builds the URL instead of fetching it.
pub open spec fn redirect_method(r: RouteDefinition, indent: nat) -> Seq<char> {
    let inner = template_inner(r.path@);
    match r.query_type {
        Some(q) => with_query_url(
            r.name@ + ": ("@ + join(
                path_param_parts(r.path_params@) + seq!["query?: "@ + ts_type(q@)],
                ", "@,
            ) + ") => {\n"@,
            inner,
            indent,
        ),
        None => if param_parts(r).len() == 0 {
            r.name@ + ": () => `${options.baseUrl}"@ + inner + "`"@
        } else {
            r.name@ + ": ("@ + join(param_parts(r), ", "@) + ") => `${options.baseUrl}"@ + inner
                + "`"@
        },
    }
}

/// The client method for a route.
pub open spec fn route_method(r: RouteDefinition, indent: nat) -> Seq<char> {
    if r.redirect {
        redirect_method(r, indent)
    } else {
        fetch_method(r, indent)
    }
}

/// Whether the indentations that the method of `r` is written with fit in a
/// `usize`: `indent + 4` for a redirect, `indent + 2` for a fetch with parameters.
pub open spec fn indent_fits(r: RouteDefinition, indent: nat) -> bool {
    if r.redirect {
        indent + 4 <= usize::MAX
    } else if param_parts(r).len() > 0 {
        indent + 2 <= usize::MAX
    } else {
        true
    }
}

fn path_param_strings(ps: &Vec<PathParam>) -> (res: Vec<String>)
    ensures
        string_seqs(res@) == path_param_parts(ps@),
{
    let mut res: Vec<String> = Vec::new();
    let n = ps.len();
    let mut i: usize = 0;
    while i < n
        invariant
            n == ps@.len(),
            i <= n,
            string_seqs(res@) == path_param_parts(ps@).take(i as int),
        decreases n - i,
    {
        let ghost before = res@;
        let mut s = String::new();
        s.append(ps[i].name.as_str());
        s.append(": string");
        assert(s@ == ps@[i as int].name@ + ": string"@);
        res.push(s);
        assert(string_seqs(res@) =~= string_seqs(before).push(s@));
        assert(string_seqs(res@) =~= path_param_parts(ps@).take(i + 1));
        i = i + 1;
    }
    assert(path_param_parts(ps@).take(n as int) =~= path_param_parts(ps@));
    res
}

fn push_string(v: &mut Vec<String>, s: String)
    ensures
        string_seqs(final(v)@) == string_seqs(old(v)@).push(s@),
{
    v.push(s);
    assert(string_seqs(v@) =~= string_seqs(old(v)@).push(s@));
}

fn typed_part(label: &str, rust_type: &String) -> (res: String)
    ensures
        res@ == label@ + ts_type(rust_type@),
{
    let mut s = String::new();
    s.append(label);
    push_ts_type(&mut s, rust_type.as_str());
    s
}

fn param_strings(route: &RouteDefinition, with_body: bool) -> (res: Vec<String>)
    ensures
        with_body ==> string_seqs(res@) == param_parts(*route),
        !with_body ==> string_seqs(res@) == path_param_parts(route.path_params@) + query_parts(
            *route,
        ),
{
    let mut parts = path_param_strings(&route.path_params);
    let ghost pp = string_seqs(parts@);
    if with_body {
        match &route.body_type {
            Some(b) => {
                push_string(&mut parts, typed_part("body: ", b));
            },
            None => {},
        }
    }
    let ghost pb = string_seqs(parts@);
    match &route.query_type {
        Some(q) => {
            push_string(&mut parts, typed_part("query?: ", q));
            assert(string_seqs(parts@) =~= pb + query_parts(*route));
        },
        None => {
            assert(string_seqs(parts@) =~= pb + query_parts(*route));
        },
    }
    assert(with_body ==> pb =~= pp + match route.body_type {
        Some(b) => seq!["body: "@ + ts_type(b@)],
        None => Seq::<Seq<char>>::empty(),
    });
    assert(!with_body ==> pb =~= pp);
    parts
}

/// Generate a function's parameter list for a route.
pub fn generate_params(route: &RouteDefinition) -> (res: String)
    ensures
        res@ == join(param_parts(*route), ", "@),
{
    let parts = param_strings(route, true);
    let mut out = String::new();
    push_joined(&mut out, &parts, ", ");
    out
}

fn push_request_options(out: &mut String, route: &RouteDefinition)
    ensures
        final(out)@ == old(out)@ + request_options(*route),
{
    let mut opts: Vec<String> = Vec::new();
    let is_get = match route.method {
        HttpMethod::Get => true,
        _ => false,
    };
    if !is_get {
        let mut s = String::new();
        s.append("method: \"");
        s.append(route.method.as_str());
        s.append("\"");
        push_string(&mut opts, s);
    }
    if route.auth {
        push_string(&mut opts, String::from_str("auth: true"));
    }
    if route.body_type.is_some() {
        push_string(&mut opts, String::from_str("body"));
    }
    if route.query_type.is_some() {
        push_string(&mut opts, String::from_str("query"));
    }
    assert(string_seqs(opts@) =~= option_parts(*route));
    if opts.len() > 0 {
        out.append(", { ");
        push_joined(out, &opts, ", ");
        out.append(" }");
    }
}

/// Generate the request options object literal for a route.
pub fn generate_request_options(route: &RouteDefinition) -> (res: String)
    ensures
        res@ == request_options(*route),
{
    let mut out = String::new();
    push_request_options(&mut out, route);
    out
}

#[verifier::rlimit(40)]
fn push_fetch_method(out: &mut String, route: &RouteDefinition, indent: usize)
    requires
        indent_fits(*route, indent as nat),
        !route.redirect,
    ensures
        final(out)@ == old(out)@ + fetch_method(*route, indent as nat),
{
    let parts = param_strings(route, true);
    let ghost start = out@;
    out.append(route.name.as_str());
    if parts.len() == 0 {
        out.append(": () => ");
    } else {
        out.append(": (");
        push_joined(out, &parts, ", ");
        out.append(") =>\n");
        push_spaces(out, indent + 2);
    }
    let ghost mid = out@;
    out.append("request<");
    match &route.response_type {
        Some(t) => push_ts_type(out, t.as_str()),
        None => out.append("void"),
    }
    out.append(">(");
    push_path_template(out, route.path.as_str());
    push_request_options(out, route);
    out.append(")");
    let ghost call = "request<"@ + return_type(*route) + ">("@ + path_template(route.path@)
        + request_options(*route) + ")"@;
    assert(out@ =~= mid + call);
}

fn push_redirect_method(out: &mut String, route: &RouteDefinition, indent: usize)
    requires
        indent <= usize::MAX - 4,
    ensures
        final(out)@ == old(out)@ + redirect_method(*route, indent as nat),
{
    let tpl = build_path_template_chars(route.path.as_str());
    let inner = sub_chars(tpl.as_slice(), 1, tpl.len() - 1);
    let ghost start = out@;
    match &route.query_type {
        Some(q) => {
            let parts = param_strings(route, false);
            out.append(route.name.as_str());
            out.append(": (");
            push_joined(out, &parts, ", ");
            out.append(") => {\n");
            let ghost head = out@;
            push_query_redirect_body(out, inner.as_slice(), indent);
            let ghost h = route.name@ + ": ("@ + join(
                path_param_parts(route.path_params@) + seq!["query?: "@ + ts_type(q@)],
                ", "@,
            ) + ") => {\n"@;
            assert(head =~= start + h);
            proof {
                lemma_with_query_url_prefix(start, h, inner@, indent as nat);
            }
        },
        None => {
            let parts = param_strings(route, true);
            assert(query_parts(*route) =~= Seq::<Seq<char>>::empty());
            out.append(route.name.as_str());
            if parts.len() == 0 {
                out.append(": () => `${options.baseUrl}");
            } else {
                out.append(": (");
                push_joined(out, &parts, ", ");
                out.append(") => `${options.baseUrl}");
            }
            push_chars(out, inner.as_slice());
            out.append("`");
            assert(out@ =~= start + redirect_method(*route, indent as nat));
        },
    }
}

fn push_query_redirect_body(out: &mut String, inner: &[char], indent: usize)
    requires
        indent <= usize::MAX - 4,
    ensures
        final(out)@ == with_query_url(old(out)@, inner@, indent as nat),
{
    push_spaces(out, indent + 2);
    out.append("let url = `${options.baseUrl}");
    push_chars(out, inner);
    out.append("`;\n");
    push_spaces(out, indent + 2);
    out.append("if (query) {\n");
    push_spaces(out, indent + 4);
    out.append("const params = new URLSearchParams();\n");
    push_spaces(out, indent + 4);
    out.append("for (const [key, value] of Object.entries(query)) {\n");
    push_spaces(out, indent + 4);
    out.append(
        "  if (value !== undefined && value !== null) params.set(key, String(value));\n",
    );
    push_spaces(out, indent + 4);
    out.append("}\n");
    push_spaces(out, indent + 4);
    out.append("const qs = params.toString();\n");
    push_spaces(out, indent + 4);
    out.append("if (qs) url += `?${qs}`;\n");
    push_spaces(out, indent + 2);
    out.append("}\n");
    push_spaces(out, indent + 2);
    out.append("return url;\n");
    push_spaces(out, indent);
    out.append("}");
}

fn build_path_template_chars(path: &str) -> (res: Vec<char>)
    ensures
        res@ == path_template(path@),
        res@.len() >= 2,
{
    let mut s = String::new();
    push_path_template(&mut s, path);
    proof {
        reveal_strlit("\"");
        reveal_strlit("`");
    }
    str_chars(s.as_str())
}

/// Appends the client method for a route.
fn push_route_method(out: &mut String, route: &RouteDefinition, indent: usize)
    requires
        indent_fits(*route, indent as nat),
    ensures
        final(out)@ == old(out)@ + route_method(*route, indent as nat),
{
    if route.redirect {
        push_redirect_method(out, route, indent);
    } else {
        push_fetch_method(out, route, indent);
    }
}

/// Generate a single route method.
pub fn generate_route_method(out: &mut String, route: &RouteDefinition, indent: usize)
    requires
        indent_fits(*route, indent as nat),
    ensures
        final(out)@ == old(out)@ + route_method(*route, indent as nat),
{
    push_route_method(out, route, indent);
}

/// Generate a redirect route (URL-builder, not fetch).
pub fn generate_redirect_method(out: &mut String, route: &RouteDefinition, indent: usize)
    requires
        indent <= usize::MAX - 4,
    ensures
        final(out)@ == old(out)@ + redirect_method(*route, indent as nat),
{
    push_redirect_method(out, route, indent);
}

} // verus!

verus! {

// ---------------------------------------------------------------------------
// Route lists
// ---------------------------------------------------------------------------

/// One line per route, each indented by `indent` and ended by `,` and a newline.
pub open spec fn route_lines(rs: Seq<RouteDefinition>, indent: nat) -> Seq<char>
    decreases rs.len(),
{
    if rs.len() == 0 {
        Seq::<char>::empty()
    } else {
        route_lines(rs.drop_last(), indent) + spaces(indent) + route_method(rs.last(), indent)
            + ",\n"@
    }
}

/// The routes whose group is `g`, in order.
pub open spec fn in_group(rs: Seq<RouteDefinition>, g: Option<Seq<char>>) -> Seq<RouteDefinition>
    decreases rs.len(),
{
    if rs.len() == 0 {
        Seq::<RouteDefinition>::empty()
    } else if opt_view(rs.last().group) == g {
        in_group(rs.drop_last(), g).push(rs.last())
    } else {
        in_group(rs.drop_last(), g)
    }
}

/// Some route among the first `n` has group `g`.
pub open spec fn group_used(rs: Seq<RouteDefinition>, n: int, g: Seq<char>) -> bool {
    exists|j: int| 0 <= j < n && #[trigger] opt_view(rs[j].group) == Some(g)
}

/// The names of the groups that routes belong to.
pub open spec fn group_set(rs: Seq<RouteDefinition>) -> Set<Seq<char>> {
    Set::new(|g: Seq<char>| group_used(rs, rs.len() as int, g))
}

/// One nested object per group name; a blank line before each but the first,
/// and before the first too when `lead` (ungrouped routes came before).
pub open spec fn group_blocks(names: Seq<Seq<char>>, rs: Seq<RouteDefinition>, lead: bool) -> Seq<
    char,
>
    decreases names.len(),
{
    if names.len() == 0 {
        Seq::<char>::empty()
    } else {
        group_blocks(names.drop_last(), rs, lead) + group_block(
            names.last(),
            rs,
            lead || names.len() > 1,
        )
    }
}

/// The nested object of group `name`, after a blank line when `blank`.
pub open spec fn group_block(name: Seq<char>, rs: Seq<RouteDefinition>, blank: bool) -> Seq<char> {
    (if blank {
        "\n"@
    } else {
        Seq::<char>::empty()
    }) + "    "@ + name + ": {\n"@ + route_lines(in_group(rs, Some(name)), 6) + "    },\n"@
}

/// The routes grouped: ungrouped routes first, in order; then one nested object per
/// group, groups in increasing order of name, routes within a group in order.
pub open spec fn grouped_routes(rs: Seq<RouteDefinition>) -> Seq<char> {
    let ungrouped = in_group(rs, None);
    route_lines(ungrouped, 4) + group_blocks(sorted_listing(group_set(rs)), rs, ungrouped.len() > 0)
}

fn push_route_line(out: &mut String, route: &RouteDefinition, indent: usize)
    requires
        indent <= usize::MAX - 4,
    ensures
        final(out)@ == old(out)@ + spaces(indent as nat) + route_method(*route, indent as nat)
            + ",\n"@,
{
    push_spaces(out, indent);
    push_route_method(out, route, indent);
    out.append(",\n");
}

fn group_matches(route: &RouteDefinition, name: &[char]) -> (res: bool)
    ensures
        res == (opt_view(route.group) == Some(name@)),
{
    match &route.group {
        Some(g) => chars_eq_str(name, g.as_str()),
        None => false,
    }
}

/// Appends the lines of the routes of group `g` (`None`: the ungrouped ones).
fn push_group_lines(out: &mut String, rs: &[RouteDefinition], g: Option<&[char]>, indent: usize) -> (any: bool)
    requires
        indent <= usize::MAX - 4,
    ensures
        ({
            let gv = match g {
                Some(x) => Some(x@),
                None => None,
            };
            &&& final(out)@ == old(out)@ + route_lines(in_group(rs@, gv), indent as nat)
            &&& any == (in_group(rs@, gv).len() > 0)
        }),
{
    let ghost gv = match g {
        Some(x) => Some(x@),
        None => None,
    };
    let n = rs.len();
    let mut any = false;
    let mut i: usize = 0;
    while i < n
        invariant
            n == rs@.len(),
            i <= n,
            indent <= usize::MAX - 4,
            gv == match g {
                Some(x) => Some(x@),
                None => None::<Seq<char>>,
            },
            out@ == old(out)@ + route_lines(in_group(rs@.take(i as int), gv), indent as nat),
            any == (in_group(rs@.take(i as int), gv).len() > 0),
        decreases n - i,
    {
        assert(rs@.take(i + 1).drop_last() =~= rs@.take(i as int));
        assert(rs@.take(i + 1).last() == rs@[i as int]);
        let hit = match g {
            Some(name) => group_matches(&rs[i], name),
            None => rs[i].group.is_none(),
        };
        if hit {
            let ghost before = out@;
            push_route_line(out, &rs[i], indent);
            let ghost sel = in_group(rs@.take(i as int), gv);
            assert(in_group(rs@.take(i + 1), gv) == sel.push(rs@[i as int]));
            assert(sel.push(rs@[i as int]).drop_last() =~= sel);
            any = true;
        }
        i = i + 1;
    }
    assert(rs@.take(n as int) =~= rs@);
    any
}

fn push_group_block(out: &mut String, rs: &[RouteDefinition], name: &[char], blank: bool)
    ensures
        final(out)@ == old(out)@ + group_block(name@, rs@, blank),
{
    let ghost start = out@;
    if blank {
        out.append("\n");
    }
    let ghost head = out@;
    out.append("    ");
    push_chars(out, name);
    out.append(": {\n");
    push_group_lines(out, rs, Some(name), 6);
    out.append("    },\n");
    assert(out@ =~= start + group_block(name@, rs@, blank));
}

/// Generate routes organized into groups (nested objects).
#[verifier::rlimit(40)]
pub fn generate_grouped_routes(out: &mut String, routes: &RouteCollection)
    ensures
        final(out)@ == old(out)@ + grouped_routes(routes@),
{
    let rs = routes.routes();
    let ghost r = rs@;
    let any_ungrouped = push_group_lines(out, rs, None, 4);
    let ghost mid = out@;
    let n = rs.len();
    let mut names: Vec<Vec<char>> = Vec::new();
    let mut i: usize = 0;
    while i < n
        invariant
            n == r.len(),
            r == rs@,
            i <= n,
            strictly_sorted(char_seqs(names@)),
            forall|x: Seq<char>| char_seqs(names@).contains(x) <==> group_used(r, i as int, x),
        decreases n - i,
    {
        let ghost old_names = char_seqs(names@);
        assert(forall|x: Seq<char>| old_names.contains(x) <==> group_used(r, i as int, x));
        match &rs[i].group {
            Some(g) => {
                insert_sorted(&mut names, str_chars(g.as_str()));
            },
            None => {},
        }
        assert forall|x: Seq<char>| char_seqs(names@).contains(x) <==> group_used(
            r,
            i + 1,
            x,
        ) by {
            if group_used(r, i + 1, x) {
                let j = choose|j: int| 0 <= j < i + 1 && #[trigger] opt_view(r[j].group) == Some(x);
                if j < i {
                    assert(group_used(r, i as int, x));
                }
            }
            if old_names.contains(x) {
                assert(group_used(r, i as int, x));
                let j = choose|j: int| 0 <= j < i && #[trigger] opt_view(r[j].group) == Some(x);
                assert(0 <= j < i + 1 && opt_view(r[j].group) == Some(x));
            }
            if opt_view(r[i as int].group) == Some(x) {
                assert(0 <= i < i + 1 && opt_view(r[i as int].group) == Some(x));
            }
        }
        i = i + 1;
    }
    proof {
        assert(lists_sorted(char_seqs(names@), group_set(r)));
        lemma_is_sorted_listing(char_seqs(names@), group_set(r));
    }
    let ghost all = char_seqs(names@);
    let m = names.len();
    let mut k: usize = 0;
    while k < m
        invariant
            m == names@.len(),
            all == char_seqs(names@),
            r == rs@,
            k <= m,
            any_ungrouped == (in_group(r, None).len() > 0),
            out@ == mid + group_blocks(all.take(k as int), r, any_ungrouped),
        decreases m - k,
    {
        assert(all.take(k + 1).drop_last() =~= all.take(k as int));
        assert(all.take(k + 1).last() == names@[k as int]@);
        push_group_block(out, rs, names[k].as_slice(), any_ungrouped || k > 0);
        k = k + 1;
    }
    assert(all.take(m as int) =~= all);
}

/// Generate routes in a flat structure (no grouping).
pub fn generate_flat_routes(out: &mut String, routes: &RouteCollection)
    ensures
        final(out)@ == old(out)@ + route_lines(routes@, 4),
{
    let rs = routes.routes();
    let n = rs.len();
    let mut i: usize = 0;
    while i < n
        invariant
            n == rs@.len(),
            rs@ == routes@,
            i <= n,
            out@ == old(out)@ + route_lines(rs@.take(i as int), 4),
        decreases n - i,
    {
        assert(rs@.take(i + 1).drop_last() =~= rs@.take(i as int));
        assert(rs@.take(i + 1).last() == rs@[i as int]);
        push_route_line(out, &rs[i], 4);
        i = i + 1;
    }
    assert(rs@.take(n as int) =~= rs@);
}

} // verus!

verus! {

// ---------------------------------------------------------------------------
// Type imports
// ---------------------------------------------------------------------------

/// The optional type name `o` needs an import of `n`.
pub open spec fn names_type(o: Option<String>, n: Seq<char>) -> bool {
    match o {
        Some(t) => base_type(t@) == Some(n),
        None => false,
    }
}

/// The body, response or query type of `r` needs an import of `n`.
pub open spec fn uses_type(r: RouteDefinition, n: Seq<char>) -> bool {
    names_type(r.body_type, n) || names_type(r.response_type, n) || names_type(r.query_type, n)
}

/// Some route among the first `k` needs an import of `n`.
pub open spec fn type_used(rs: Seq<RouteDefinition>, k: int, n: Seq<char>) -> bool {
    exists|j: int| 0 <= j < k && #[trigger] uses_type(rs[j], n)
}

/// The custom types that the routes need imported.
pub open spec fn type_set(rs: Seq<RouteDefinition>) -> Set<Seq<char>> {
    Set::new(|n: Seq<char>| type_used(rs, rs.len() as int, n))
}

/// One `import type` line per name, from `prefix/name`.
pub open spec fn import_lines(names: Seq<Seq<char>>, prefix: Seq<char>) -> Seq<char>
    decreases names.len(),
{
    if names.len() == 0 {
        Seq::<char>::empty()
    } else {
        import_lines(names.drop_last(), prefix) + "import type { "@ + names.last() + " } from \""@
            + prefix + "/"@ + names.last() + "\";\n"@
    }
}

fn collect_field_type(types: &mut Vec<Vec<char>>, field: &Option<String>)
    requires
        strictly_sorted(char_seqs(old(types)@)),
    ensures
        strictly_sorted(char_seqs(final(types)@)),
        forall|x: Seq<char>|
            #[trigger] char_seqs(final(types)@).contains(x) <==> (char_seqs(old(types)@).contains(
                x,
            ) || names_type(*field, x)),
{
    match field {
        Some(t) => match base_type_name(t.as_str()) {
            Some(b) => {
                insert_sorted(types, str_chars(b));
            },
            None => {},
        },
        None => {},
    }
}

/// The custom types of the routes, in increasing order, each once.
fn collect_types(rs: &[RouteDefinition]) -> (res: Vec<Vec<char>>)
    ensures
        char_seqs(res@) == sorted_listing(type_set(rs@)),
{
    let ghost r = rs@;
    let n = rs.len();
    let mut types: Vec<Vec<char>> = Vec::new();
    let mut i: usize = 0;
    while i < n
        invariant
            n == r.len(),
            r == rs@,
            i <= n,
            strictly_sorted(char_seqs(types@)),
            forall|x: Seq<char>| char_seqs(types@).contains(x) <==> type_used(r, i as int, x),
        decreases n - i,
    {
        let ghost old_types = char_seqs(types@);
        assert(forall|x: Seq<char>| old_types.contains(x) <==> type_used(r, i as int, x));
        collect_field_type(&mut types, &rs[i].body_type);
        let ghost t1 = char_seqs(types@);
        collect_field_type(&mut types, &rs[i].response_type);
        let ghost t2 = char_seqs(types@);
        collect_field_type(&mut types, &rs[i].query_type);
        let ghost t3 = char_seqs(types@);
        assert forall|x: Seq<char>| char_seqs(types@).contains(x) <==> type_used(r, i + 1, x) by {
            assert(t1.contains(x) <==> old_types.contains(x) || names_type(r[i as int].body_type, x));
            assert(t2.contains(x) <==> t1.contains(x) || names_type(r[i as int].response_type, x));
            assert(t3.contains(x) <==> t2.contains(x) || names_type(r[i as int].query_type, x));
            if type_used(r, i + 1, x) {
                let j = choose|j: int| 0 <= j < i + 1 && #[trigger] uses_type(r[j], x);
                if j < i {
                    assert(type_used(r, i as int, x));
                }
            }
            if old_types.contains(x) {
                assert(type_used(r, i as int, x));
                let j = choose|j: int| 0 <= j < i && #[trigger] uses_type(r[j], x);
                assert(0 <= j < i + 1 && uses_type(r[j], x));
            }
            if uses_type(r[i as int], x) {
                assert(0 <= i < i + 1 && uses_type(r[i as int], x));
            }
        }
        i = i + 1;
    }
    proof {
        assert(lists_sorted(char_seqs(types@), type_set(r)));
        lemma_is_sorted_listing(char_seqs(types@), type_set(r));
    }
    types
}

fn push_imports(out: &mut String, types: &Vec<Vec<char>>, prefix: &String)
    ensures
        final(out)@ == old(out)@ + import_lines(char_seqs(types@), prefix@),
{
    let ghost all = char_seqs(types@);
    let n = types.len();
    let mut k: usize = 0;
    while k < n
        invariant
            n == types@.len(),
            all == char_seqs(types@),
            k <= n,
            out@ == old(out)@ + import_lines(all.take(k as int), prefix@),
        decreases n - k,
    {
        assert(all.take(k + 1).drop_last() =~= all.take(k as int));
        assert(all.take(k + 1).last() == types@[k as int]@);
        out.append("import type { ");
        push_chars(out, types[k].as_slice());
        out.append(" } from \"");
        out.append(prefix.as_str());
        out.append("/");
        push_chars(out, types[k].as_slice());
        out.append("\";\n");
        k = k + 1;
    }
    assert(all.take(n as int) =~= all);
}

// ---------------------------------------------------------------------------
// Static blocks
// ---------------------------------------------------------------------------

/// First line of every generated client.
pub const HEADER_LINE: &'static str = "// Auto-generated by axum-ts-client. Do not edit.";

/// The error class; `__ERROR__` stands for its name.
pub const ERROR_CLASS: &'static str = r#"export class __ERROR__ extends Error {
  constructor(message: string, public status: number, public body?: unknown) {
    super(message);
    this.name = "__ERROR__";
  }
}
"#;

/// The options interface; `__OPTS__` stands for its name, `__ERROR__` for the error class.
pub const OPTIONS_INTERFACE: &'static str = r#"export interface __OPTS__ {
  baseUrl: string;
  getToken?: () => Promise<string | null>;
  credentials?: RequestCredentials;
  fetch?: typeof fetch;
  onError?: (error: __ERROR__) => void;
}
"#;

/// The type of the per-request options.
pub const REQUEST_OPTIONS_TYPE: &'static str = "type RequestOptions = {
  method?: string;
  body?: unknown;
  query?: Record<string, unknown>;
  auth?: boolean;
};
";

/// The request helper; `__CREDS__` stands for the default credentials.
pub const REQUEST_HELPER: &'static str = r#"function createRequest(options: __OPTS__) {
  const { baseUrl, credentials = "__CREDS__" } = options;
  async function request<T>(
    path: string,
    opts: RequestOptions = {},
  ): Promise<T> {
    const { method = "GET", body, query, auth } = opts;
    // Resolve fetch at call time (not at client creation) so OTel
    // instrumentation patches are picked up even when the client
    // module is imported before telemetry initializes.
    const fetchFn = options.fetch ?? globalThis.fetch;

    let url = `${baseUrl}${path}`;
    if (query) {
      const params = new URLSearchParams();
      for (const [key, value] of Object.entries(query)) {
        if (value !== undefined && value !== null) {
          params.set(key, String(value));
        }
      }
      const qs = params.toString();
      if (qs) url += `?${qs}`;
    }

    const headers: Record<string, string> = { "Content-Type": "application/json" };

    if (auth && options.getToken) {
      const token = await options.getToken();
      if (token) headers.Authorization = `Bearer ${token}`;
    }

    const response = await fetchFn(url, {
      method,
      credentials,
      headers,
      body: body ? JSON.stringify(body) : undefined,
    });

    if (!response.ok) {
      const text = await response.text();
      let message: string;
      let errorBody: unknown;
      try {
        const json = JSON.parse(text);
        message = json.error ?? json.message ?? text;
        errorBody = json;
      } catch {
        message = text;
      }
      const error = new __ERROR__(message, response.status, errorBody);
      if (options.onError) options.onError(error);
      throw error;
    }

    const text = await response.text();
    return (text ? JSON.parse(text) : undefined) as T;
  }

  return request;
}
"#;

/// A template with `__ERROR__`, then `__OPTS__`, then `__CREDS__` replaced by the
/// configured names, one after the other.
pub open spec fn substituted(t: Seq<char>, c: GeneratorConfig) -> Seq<char> {
    replace_all(
        replace_all(
            replace_all(t, "__ERROR__"@, c.error_class_name@),
            "__OPTS__"@,
            c.options_interface_name@,
        ),
        "__CREDS__"@,
        c.default_credentials@,
    )
}

fn push_substituted(out: &mut String, template: &str, config: &GeneratorConfig)
    ensures
        final(out)@ == old(out)@ + substituted(template@, *config),
{
    let t = str_chars(template);
    let e = str_chars(config.error_class_name.as_str());
    let o = str_chars(config.options_interface_name.as_str());
    let c = str_chars(config.default_credentials.as_str());
    let p_err = str_chars("__ERROR__");
    let p_opts = str_chars("__OPTS__");
    let p_creds = str_chars("__CREDS__");
    let mut r1 = String::new();
    push_replaced(&mut r1, t.as_slice(), p_err.as_slice(), e.as_slice());
    let r1c = str_chars(r1.as_str());
    let mut r2 = String::new();
    push_replaced(&mut r2, r1c.as_slice(), p_opts.as_slice(), o.as_slice());
    let r2c = str_chars(r2.as_str());
    proof {
        assert(r1@ =~= replace_all(template@, "__ERROR__"@, config.error_class_name@));
        assert(r2@ =~= replace_all(r1@, "__OPTS__"@, config.options_interface_name@));
    }
    push_replaced(out, r2c.as_slice(), p_creds.as_slice(), c.as_slice());
}

// ---------------------------------------------------------------------------
// Code generation
// ---------------------------------------------------------------------------

/// The routes part of the factory's returned object.
pub open spec fn routes_part(rs: Seq<RouteDefinition>, c: GeneratorConfig) -> Seq<char> {
    if c.enable_groups {
        grouped_routes(rs)
    } else {
        route_lines(rs, 4)
    }
}

/// The type imports, and a blank line after them when there are any.
pub open spec fn imports_part(rs: Seq<RouteDefinition>, c: GeneratorConfig) -> Seq<char> {
    let types = sorted_listing(type_set(rs));
    import_lines(types, import_prefix(c)) + (if types.len() > 0 {
        "\n"@
    } else {
        Seq::<char>::empty()
    })
}

/// The static blocks: the error class, the options interface, the request options
/// type and the request helper, each followed by a blank line.
pub open spec fn static_part(c: GeneratorConfig) -> Seq<char> {
    substituted(ERROR_CLASS@, c) + "\n"@ + substituted(OPTIONS_INTERFACE@, c) + "\n"@
        + REQUEST_OPTIONS_TYPE@ + "\n"@ + substituted(REQUEST_HELPER@, c) + "\n"@
}

/// The factory function returning the client's methods.
pub open spec fn factory_part(rs: Seq<RouteDefinition>, c: GeneratorConfig) -> Seq<char> {
    "export function "@ + c.factory_name@ + "(options: "@ + c.options_interface_name@
        + ") {\n"@ + "  const request = createRequest(options);\n"@ + "\n"@ + "  return {\n"@
        + routes_part(rs, c) + "  };\n"@ + "}\n"@ + "\n"@
}

/// The exported client type.
pub open spec fn type_export(c: GeneratorConfig) -> Seq<char> {
    "export type "@ + type_name_for(c.factory_name@) + " = ReturnType<typeof "@ + c.factory_name@
        + ">;\n"@
}

/// The full TypeScript client source.
pub open spec fn client_source(rs: Seq<RouteDefinition>, c: GeneratorConfig) -> Seq<char> {
    HEADER_LINE@ + "\n"@ + "\n"@ + imports_part(rs, c) + static_part(c) + factory_part(rs, c)
        + type_export(c)
}

fn push_static_part(out: &mut String, config: &GeneratorConfig)
    ensures
        final(out)@ == old(out)@ + static_part(*config),
{
    let ghost start = out@;
    push_substituted(out, ERROR_CLASS, config);
    out.append("\n");
    push_substituted(out, OPTIONS_INTERFACE, config);
    out.append("\n");
    out.append(REQUEST_OPTIONS_TYPE);
    out.append("\n");
    push_substituted(out, REQUEST_HELPER, config);
    out.append("\n");
    assert(out@ =~= start + static_part(*config));
}

fn push_factory_part(out: &mut String, routes: &RouteCollection, config: &GeneratorConfig)
    ensures
        final(out)@ == old(out)@ + factory_part(routes@, *config),
{
    let ghost start = out@;
    out.append("export function ");
    out.append(config.factory_name.as_str());
    out.append("(options: ");
    out.append(config.options_interface_name.as_str());
    out.append(") {\n");
    out.append("  const request = createRequest(options);\n");
    out.append("\n");
    out.append("  return {\n");
    let ghost head = out@;
    if config.enable_groups {
        generate_grouped_routes(out, routes);
    } else {
        generate_flat_routes(out, routes);
    }
    assert(out@ == head + routes_part(routes@, *config));
    out.append("  };\n");
    out.append("}\n");
    out.append("\n");
    assert(out@ =~= start + factory_part(routes@, *config));
}

fn push_type_export(out: &mut String, config: &GeneratorConfig)
    ensures
        final(out)@ == old(out)@ + type_export(*config),
{
    let ghost start = out@;
    let alias = derive_type_name(config.factory_name.as_str());
    out.append("export type ");
    out.append(alias.as_str());
    out.append(" = ReturnType<typeof ");
    out.append(config.factory_name.as_str());
    out.append(">;\n");
    assert(out@ =~= start + type_export(*config));
}

/// Generate the full TypeScript client source code.
pub fn generate(routes: &RouteCollection, config: &GeneratorConfig) -> (res: String)
    ensures
        res@ == client_source(routes@, *config),
{
    let mut out = String::new();
    out.append(HEADER_LINE);
    out.append("\n");
    out.append("\n");
    assert(out@ =~= HEADER_LINE@ + "\n"@ + "\n"@);
    let ghost after_header = out@;
    let prefix = compute_import_prefix(config);
    let types = collect_types(routes.routes());
    push_imports(&mut out, &types, &prefix);
    if types.len() > 0 {
        out.append("\n");
    }
    assert(out@ =~= after_header + imports_part(routes@, *config));
    let ghost after_imports = out@;
    push_static_part(&mut out, config);
    push_factory_part(&mut out, routes, config);
    push_type_export(&mut out, config);
    assert(out@ =~= after_imports + static_part(*config) + factory_part(routes@, *config)
        + type_export(*config));
    out
}

// ---------------------------------------------------------------------------
// Check
// ---------------------------------------------------------------------------

/// Compares the expected client source with the committed one: `Ok` when they are
/// equal, else `OutOfSync` naming the committed file.
pub fn check_in_sync(expected: &str, committed: &str, output_path: &str) -> (res: Result<(), CheckError>)
    ensures
        res is Ok <==> expected@ == committed@,
        match res {
            Err(CheckError::OutOfSync { path }) => path@ == output_path@,
            Err(_) => false,
            Ok(_) => true,
        },
{
    let a = str_chars(expected);
    let b = str_chars(committed);
    if chars_eq(a.as_slice(), b.as_slice()) {
        Ok(())
    } else {
        Err(CheckError::OutOfSync { path: String::from_str(output_path) })
    }
}

} // verus!
