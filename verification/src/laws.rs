//! Properties of the library that span its functions.

use vstd::prelude::*;

use crate::builder::{adds_route_in_group, ApiRouter};
use crate::generator::{
    option_parts, param_parts, request_options,
    client_source, factory_part, group_blocks, group_set, grouped_routes, imports_part, in_group,
    opt_view, route_lines, route_method, static_part, type_export, type_set, uses_type,
    GeneratorConfig,
};
use crate::names::{
    after_pairs, ascii_upper, camel, camel_from, delim_pos, has_pair, is_type_delim,
    lemma_delim_pos_at, lemma_delim_pos_bounds, stripped,
};
use crate::import_path::common_len;
use crate::order::{
    lemma_is_sorted_listing, lemma_lex_total, lemma_lex_transitive, lex_lt, lists_sorted,
    sorted_listing, strictly_sorted,
};
use crate::snippets::{join, type_name_for};
use crate::text::{has_prefix, is_ws, trim, trim_end, trim_start};
use crate::ts_types::{base_type, innermost, is_primitive_name, option_inner, ts_type, vec_inner};
use crate::types::{method_name, HttpMethod, RouteDefinition};

verus! {

// ---------------------------------------------------------------------------
// camelCase
// ---------------------------------------------------------------------------

/// A name without `_` is already in camelCase: `snake_to_camel` leaves it unchanged.
pub proof fn law_camel_keeps_names_without_underscore(s: Seq<char>)
    requires
        !s.contains('_'),
    ensures
        camel(s) == s,
    decreases s.len(),
{
    lemma_camel_from_plain(s);
}

proof fn lemma_camel_from_plain(s: Seq<char>)
    requires
        !s.contains('_'),
    ensures
        camel_from(s, false) == s,
    decreases s.len(),
{
    if s.len() > 0 {
        assert(s[0] != '_');
        assert(!s.skip(1).contains('_')) by {
            if s.skip(1).contains('_') {
                let i = choose|i: int| 0 <= i < s.skip(1).len() && s.skip(1)[i] == '_';
                assert(s[i + 1] == '_');
            }
        }
        lemma_camel_from_plain(s.skip(1));
        assert(s =~= seq![s[0]] + s.skip(1));
    }
}

proof fn lemma_camel_from_no_underscore(s: Seq<char>, cap: bool)
    ensures
        !camel_from(s, cap).contains('_'),
    decreases s.len(),
{
    if s.len() > 0 {
        lemma_camel_from_no_underscore(s.skip(1), s[0] == '_');
        if s[0] != '_' {
            let c = if cap {
                ascii_upper(s[0])
            } else {
                s[0]
            };
            assert(c != '_');
            let r = camel_from(s.skip(1), false);
            assert(camel_from(s, cap) == seq![c] + r);
            if (seq![c] + r).contains('_') {
                let i = choose|i: int| 0 <= i < (seq![c] + r).len() && (seq![c] + r)[i] == '_';
                assert(i > 0 ==> r[i - 1] == '_');
            }
        }
    }
}

/// `snake_to_camel` removes every `_`, so applying it again changes nothing.
pub proof fn law_camel_idempotent(s: Seq<char>)
    ensures
        !camel(s).contains('_'),
        camel(camel(s)) == camel(s),
{
    lemma_camel_from_no_underscore(s, false);
    lemma_camel_from_plain(camel(s));
}

// ---------------------------------------------------------------------------
// Module paths
// ---------------------------------------------------------------------------

/// Two colons stand at `i` and `i + 1`.
pub open spec fn pair_at(s: Seq<char>, i: int) -> bool {
    0 <= i < s.len() - 1 && s[i] == ':' && s[i + 1] == ':'
}

/// `has_pair` is the presence of two adjacent colons.
proof fn lemma_has_pair_iff(s: Seq<char>)
    ensures
        has_pair(s) <==> exists|i: int| #[trigger] pair_at(s, i),
    decreases s.len(),
{
    if s.len() >= 2 {
        lemma_has_pair_iff(s.skip(1));
        if has_pair(s.skip(1)) {
            let i = choose|i: int| #[trigger] pair_at(s.skip(1), i);
            assert(pair_at(s, i + 1));
        }
        if has_pair(s) {
            if !(s[0] == ':' && s[1] == ':') {
                let i = choose|i: int| #[trigger] pair_at(s.skip(1), i);
                assert(pair_at(s, i + 1));
            } else {
                assert(pair_at(s, 0));
            }
        }
        if exists|i: int| #[trigger] pair_at(s, i) {
            let i = choose|i: int| #[trigger] pair_at(s, i);
            if i > 0 {
                assert(pair_at(s.skip(1), i - 1));
            }
        }
    } else {
        if exists|i: int| #[trigger] pair_at(s, i) {
            let i = choose|i: int| #[trigger] pair_at(s, i);
        }
    }
}

/// What `after_pairs` keeps is a suffix of its input with no `::` in it.
proof fn lemma_after_pairs_shape(s: Seq<char>)
    ensures
        after_pairs(s).len() <= s.len(),
        after_pairs(s) == s.skip(s.len() - after_pairs(s).len()),
        !has_pair(after_pairs(s)),
    decreases s.len(),
{
    if s.len() >= 2 && s[0] == ':' && s[1] == ':' {
        lemma_after_pairs_shape(s.skip(2));
        let r = after_pairs(s.skip(2));
        assert(s.skip(2).skip(s.skip(2).len() - r.len()) =~= s.skip(s.len() - r.len()));
    } else if s.len() == 0 {
    } else if has_pair(s.skip(1)) {
        lemma_after_pairs_shape(s.skip(1));
        let r = after_pairs(s.skip(1));
        assert(s.skip(1).skip(s.skip(1).len() - r.len()) =~= s.skip(s.len() - r.len()));
    } else {
        assert(s.skip(0) =~= s);
    }
}

/// A name with no `::` and no separator is kept by `after_pairs`.
proof fn lemma_stripped_plain_piece(s: Seq<char>)
    requires
        !has_pair(s),
        forall|i: int| 0 <= i < s.len() ==> !is_type_delim(#[trigger] s[i]),
    ensures
        stripped(s) == s,
{
    lemma_delim_pos_at(s, s.len() as int);
}

/// A type name with no `::` is left as it is by `strip_module_paths`.
pub proof fn law_strip_keeps_plain_names(s: Seq<char>)
    requires
        !has_pair(s),
    ensures
        stripped(s) == s,
    decreases s.len(),
{
    lemma_delim_pos_bounds(s);
    let k = delim_pos(s);
    lemma_has_pair_iff(s);
    if k < s.len() {
        let a = s.take(k);
        let rest = s.skip(k + 1);
        lemma_has_pair_iff(a);
        lemma_has_pair_iff(rest);
        if has_pair(a) {
            let i = choose|i: int| #[trigger] pair_at(a, i);
            assert(pair_at(s, i));
        }
        if has_pair(rest) {
            let i = choose|i: int| #[trigger] pair_at(rest, i);
            assert(pair_at(s, k + 1 + i));
        }
        law_strip_keeps_plain_names(rest);
        assert(s =~= a + seq![s[k]] + rest);
    }
}

/// Stripping module paths twice gives what stripping once gives.
pub proof fn law_strip_idempotent(s: Seq<char>)
    ensures
        stripped(stripped(s)) == stripped(s),
    decreases s.len(),
{
    lemma_delim_pos_bounds(s);
    let k = delim_pos(s);
    if k >= s.len() {
        let a = after_pairs(s);
        lemma_after_pairs_shape(s);
        assert forall|i: int| 0 <= i < a.len() implies !is_type_delim(#[trigger] a[i]) by {
            assert(a[i] == s[s.len() - a.len() + i]);
        }
        law_strip_keeps_plain_names(a);
    } else {
        let piece = s.take(k);
        let a = after_pairs(piece);
        let rest = s.skip(k + 1);
        let r = stripped(rest);
        lemma_after_pairs_shape(piece);
        law_strip_idempotent(rest);
        let t = a + seq![s[k]] + r;
        assert(stripped(s) == t);
        assert forall|i: int| 0 <= i < a.len() implies !is_type_delim(#[trigger] t[i]) by {
            assert(t[i] == a[i]);
            assert(a[i] == piece[piece.len() - a.len() + i]);
        }
        assert(t[a.len() as int] == s[k]);
        lemma_delim_pos_at(t, a.len() as int);
        assert(t.take(a.len() as int) =~= a);
        assert(t.skip(a.len() + 1int) =~= r);
        assert forall|i: int| 0 <= i < a.len() implies !is_type_delim(#[trigger] a[i]) by {
            assert(a[i] == piece[piece.len() - a.len() + i]);
        }
        lemma_delim_pos_at(a, a.len() as int);
        law_strip_keeps_plain_names(a);
        lemma_delim_pos_bounds(a);
    }
}

/// A pair of colons in `a`, a non-colon, then `b` lies in `a` or in `b`.
proof fn lemma_pair_around(a: Seq<char>, d: char, b: Seq<char>)
    requires
        d != ':',
        !has_pair(a),
        !has_pair(b),
    ensures
        !has_pair(a + seq![d] + b),
{
    let t = a + seq![d] + b;
    lemma_has_pair_iff(a);
    lemma_has_pair_iff(b);
    lemma_has_pair_iff(t);
    if exists|i: int| #[trigger] pair_at(t, i) {
        let i = choose|i: int| #[trigger] pair_at(t, i);
        if i < a.len() - 1 {
            assert(pair_at(a, i));
        } else if i == a.len() - 1 {
            assert(t[i + 1] == d);
        } else if i == a.len() {
            assert(t[i] == d);
        } else {
            assert(pair_at(b, i - a.len() - 1));
        }
    }
}

/// The stripped name holds no `::` and is no longer than the full name.
pub proof fn law_stripped_has_no_module_path(s: Seq<char>)
    ensures
        !has_pair(stripped(s)),
        stripped(s).len() <= s.len(),
    decreases s.len(),
{
    lemma_delim_pos_bounds(s);
    let k = delim_pos(s);
    if k >= s.len() {
        lemma_after_pairs_shape(s);
    } else {
        let piece = s.take(k);
        let rest = s.skip(k + 1);
        lemma_after_pairs_shape(piece);
        law_stripped_has_no_module_path(rest);
        assert(s[k] != ':');
        lemma_pair_around(after_pairs(piece), s[k], stripped(rest));
    }
}

// ---------------------------------------------------------------------------
// TypeScript types
// ---------------------------------------------------------------------------

proof fn lemma_trim_keeps(t: Seq<char>)
    requires
        t.len() > 0,
        !is_ws(t[0]),
        !is_ws(t.last()),
    ensures
        trim(t) == t,
{
}

/// `Vec<X>` maps to the TypeScript array of what `X` maps to; when `X` is an
/// `Option` the element type stands in parentheses, so that the elements, not the
/// array, are nullable.
pub proof fn law_vec_is_array(x: Seq<char>)
    ensures
        option_inner(trim(x)) is None ==> ts_type("Vec<"@ + x + ">"@) == ts_type(x) + "[]"@,
        option_inner(trim(x)) is Some ==> ts_type("Vec<"@ + x + ">"@) == "("@ + ts_type(x)
            + ")[]"@,
{
    reveal_strlit("Vec<");
    reveal_strlit(">");
    let t = "Vec<"@ + x + ">"@;
    assert(t[0] == 'V');
    assert(t.last() == '>');
    lemma_trim_keeps(t);
    assert(t.take(4) =~= "Vec<"@);
    assert(t.subrange(4, t.len() - 1) =~= x);
    assert(vec_inner(t) == Some(x));
}

/// `Option<X>` maps to the TypeScript union of what `X` maps to and `null`.
pub proof fn law_option_is_nullable(x: Seq<char>)
    ensures
        ts_type("Option<"@ + x + ">"@) == ts_type(x) + " | null"@,
{
    reveal_strlit("Option<");
    reveal_strlit("Vec<");
    reveal_strlit(">");
    let t = "Option<"@ + x + ">"@;
    assert(t[0] == 'O');
    assert(t.last() == '>');
    lemma_trim_keeps(t);
    assert(t.take(4)[0] == 'O');
    assert(vec_inner(t) is None);
    assert(t.take(7) =~= "Option<"@);
    assert(t.subrange(7, t.len() - 1) =~= x);
    assert(option_inner(t) == Some(x));
}

proof fn lemma_trim_start_ws(a: Seq<char>, x: Seq<char>)
    requires
        forall|i: int| 0 <= i < a.len() ==> is_ws(#[trigger] a[i]),
    ensures
        trim_start(a + x) == trim_start(x),
    decreases a.len(),
{
    if a.len() > 0 {
        assert((a + x).skip(1) =~= a.skip(1) + x);
        lemma_trim_start_ws(a.skip(1), x);
    } else {
        assert(a + x =~= x);
    }
}

proof fn lemma_trim_end_ws(x: Seq<char>, b: Seq<char>)
    requires
        forall|i: int| 0 <= i < b.len() ==> is_ws(#[trigger] b[i]),
    ensures
        trim_end(x + b) == trim_end(x),
    decreases b.len(),
{
    if b.len() > 0 {
        assert((x + b).drop_last() =~= x + b.drop_last());
        lemma_trim_end_ws(x, b.drop_last());
    } else {
        assert(x + b =~= x);
    }
}

proof fn lemma_trim_ws_suffix(y: Seq<char>, b: Seq<char>)
    requires
        forall|i: int| 0 <= i < b.len() ==> is_ws(#[trigger] b[i]),
    ensures
        trim(y + b) == trim(y),
    decreases y.len(),
{
    if y.len() == 0 {
        assert(y + b =~= b);
        lemma_trim_start_ws(b, Seq::<char>::empty());
        assert(b + Seq::<char>::empty() =~= b);
    } else if is_ws(y[0]) {
        assert((y + b).skip(1) =~= y.skip(1) + b);
        lemma_trim_ws_suffix(y.skip(1), b);
    } else {
        assert((y + b)[0] == y[0]);
        lemma_trim_end_ws(y, b);
    }
}

/// Whitespace around a type name does not change its TypeScript type.
pub proof fn law_ts_type_ignores_whitespace(a: Seq<char>, x: Seq<char>, b: Seq<char>)
    requires
        forall|i: int| 0 <= i < a.len() ==> is_ws(#[trigger] a[i]),
        forall|i: int| 0 <= i < b.len() ==> is_ws(#[trigger] b[i]),
    ensures
        ts_type(a + x + b) == ts_type(x),
        innermost(a + x + b) == innermost(x),
{
    lemma_trim_start_ws(a, x + b);
    assert(a + x + b =~= a + (x + b));
    lemma_trim_ws_suffix(x, b);
    assert(trim(a + x + b) == trim(x));
}

proof fn lemma_trim_start_first(s: Seq<char>)
    ensures
        trim_start(s).len() == 0 || !is_ws(trim_start(s)[0]),
        trim_start(s).len() <= s.len(),
        trim_start(s) == s.skip(s.len() - trim_start(s).len()),
    decreases s.len(),
{
    if s.len() > 0 && is_ws(s[0]) {
        lemma_trim_start_first(s.skip(1));
        let r = trim_start(s.skip(1));
        assert(s.skip(1).skip(s.skip(1).len() - r.len()) =~= s.skip(s.len() - r.len()));
    } else {
        assert(s.skip(0) =~= s);
    }
}

proof fn lemma_trim_end_last(s: Seq<char>)
    ensures
        trim_end(s).len() == 0 || !is_ws(trim_end(s).last()),
        trim_end(s).len() <= s.len(),
        trim_end(s) == s.take(trim_end(s).len() as int),
    decreases s.len(),
{
    if s.len() > 0 && is_ws(s.last()) {
        lemma_trim_end_last(s.drop_last());
        let r = trim_end(s.drop_last());
        assert(s.drop_last().take(r.len() as int) =~= s.take(r.len() as int));
    } else {
        assert(s.take(s.len() as int) =~= s);
    }
}

/// Trimming twice gives what trimming once gives.
proof fn lemma_trim_idempotent(s: Seq<char>)
    ensures
        trim(trim(s)) == trim(s),
{
    let u = trim_start(s);
    lemma_trim_start_first(s);
    let v = trim_end(u);
    lemma_trim_end_last(u);
    if v.len() > 0 {
        assert(v[0] == u[0]);
        assert(trim_start(v) == v);
    } else {
        assert(trim_start(v) == v);
    }
    assert(trim_end(v) == v);
}

/// `unwrap_inner` gives a trimmed name with no `Vec<..>` or `Option<..>` around
/// it, which it leaves as it is.
pub proof fn law_innermost_is_final(s: Seq<char>)
    ensures
        trim(innermost(s)) == innermost(s),
        vec_inner(innermost(s)) is None,
        option_inner(innermost(s)) is None,
        innermost(innermost(s)) == innermost(s),
    decreases s.len(),
{
    let t = trim(s);
    crate::ts_types::lemma_trim_len(s);
    match vec_inner(t) {
        Some(inner) => law_innermost_is_final(inner),
        None => match option_inner(t) {
            Some(inner) => law_innermost_is_final(inner),
            None => {
                lemma_trim_idempotent(s);
                assert(innermost(t) == t);
            },
        },
    }
}

/// `unwrap_inner` gives a piece of its input: its characters from some `i` up to
/// some `j`.
pub proof fn law_innermost_is_substring(s: Seq<char>) -> (r: (int, int))
    ensures
        0 <= r.0 <= r.1 <= s.len(),
        s.subrange(r.0, r.1) == innermost(s),
    decreases s.len(),
{
    let u = trim_start(s);
    let t = trim(s);
    lemma_trim_start_first(s);
    lemma_trim_end_last(u);
    crate::ts_types::lemma_trim_len(s);
    let a = s.len() - u.len();
    assert(t =~= s.subrange(a, a + t.len()));
    match vec_inner(t) {
        Some(inner) => {
            let (i, j) = law_innermost_is_substring(inner);
            assert(s.subrange(a + 4 + i, a + 4 + j) =~= inner.subrange(i, j));
            (a + 4 + i, a + 4 + j)
        },
        None => match option_inner(t) {
            Some(inner) => {
                let (i, j) = law_innermost_is_substring(inner);
                assert(s.subrange(a + 7 + i, a + 7 + j) =~= inner.subrange(i, j));
                (a + 7 + i, a + 7 + j)
            },
            None => (a, a + t.len()),
        },
    }
}

/// A type needs an import exactly when it is not primitive: `base_type_name` gives
/// `None` where `is_primitive_type` holds.
pub proof fn law_import_iff_not_primitive(s: Seq<char>)
    ensures
        base_type(s) is None <==> is_primitive_name(innermost(s)),
        base_type(s) is Some ==> base_type(s) == Some(innermost(s)),
{
}

/// The type exported for a `createX` factory is `X`.
pub proof fn law_factory_type_name(x: Seq<char>)
    ensures
        type_name_for("create"@ + x) == x,
{
    reveal_strlit("create");
    assert(("create"@ + x).take(6) =~= "create"@);
    assert(("create"@ + x).skip(6) =~= x);
}

/// A name with no whitespace at its ends and no `Vec<..>` or `Option<..>` around
/// it is its own innermost name.
proof fn lemma_bare_name(t: Seq<char>)
    requires
        t.len() > 0,
        !is_ws(t[0]),
        !is_ws(t.last()),
        t[0] != 'V',
        t[0] != 'O',
    ensures
        trim(t) == t,
        vec_inner(t) is None,
        option_inner(t) is None,
        innermost(t) == t,
{
    lemma_trim_keeps(t);
    if has_prefix(t, "Vec<"@) {
        reveal_strlit("Vec<");
        assert(t.take(4)[0] == 'V');
    }
    if has_prefix(t, "Option<"@) {
        reveal_strlit("Option<");
        assert(t.take(7)[0] == 'O');
    }
}

/// The primitive type names need no import, and map to the TypeScript
/// primitives: `String`, `&str` and `Uuid` to `string`, `bool` to `boolean`, and
/// each numeric name to `number`.
pub proof fn law_primitive_names(t: Seq<char>)
    requires
        t == "String"@ || t == "&str"@ || t == "Uuid"@ || t == "bool"@ || t == "u8"@ || t
            == "u16"@ || t == "u32"@ || t == "u64"@ || t == "i8"@ || t == "i16"@ || t == "i32"@
            || t == "i64"@ || t == "f32"@ || t == "f64"@ || t == "usize"@ || t == "isize"@,
    ensures
        innermost(t) == t,
        is_primitive_name(t),
        base_type(t) is None,
        (t == "String"@ || t == "&str"@ || t == "Uuid"@) ==> ts_type(t) == "string"@,
        t == "bool"@ ==> ts_type(t) == "boolean"@,
        (t == "u8"@ || t == "u16"@ || t == "u32"@ || t == "u64"@ || t == "i8"@ || t == "i16"@
            || t == "i32"@ || t == "i64"@ || t == "f32"@ || t == "f64"@ || t == "usize"@ || t
            == "isize"@) ==> ts_type(t) == "number"@,
{
    reveal_strlit("String");
    reveal_strlit("&str");
    reveal_strlit("Uuid");
    reveal_strlit("bool");
    reveal_strlit("u8");
    reveal_strlit("u16");
    reveal_strlit("u32");
    reveal_strlit("u64");
    reveal_strlit("i8");
    reveal_strlit("i16");
    reveal_strlit("i32");
    reveal_strlit("i64");
    reveal_strlit("f32");
    reveal_strlit("f64");
    reveal_strlit("usize");
    reveal_strlit("isize");
    lemma_bare_name(t);
}

// ---------------------------------------------------------------------------
// Route methods
// ---------------------------------------------------------------------------

/// A joined list starts with its first part.
proof fn lemma_join_starts_with_first(parts: Seq<Seq<char>>, sep: Seq<char>)
    requires
        parts.len() > 0,
    ensures
        has_prefix(join(parts, sep), parts[0]),
    decreases parts.len(),
{
    if parts.len() > 1 {
        lemma_join_starts_with_first(parts.drop_last(), sep);
        let j = join(parts.drop_last(), sep);
        let p0 = parts[0];
        assert(parts.drop_last()[0] == p0);
        assert((j + sep + parts.last()).take(p0.len() as int) =~= j.take(p0.len() as int));
    } else {
        assert(parts[0].take(parts[0].len() as int) =~= parts[0]);
    }
}

/// The request options open with the route's first entry.
proof fn lemma_options_start(r: RouteDefinition)
    requires
        option_parts(r).len() > 0,
    ensures
        has_prefix(request_options(r), ", { "@ + option_parts(r)[0]),
{
    let parts = option_parts(r);
    lemma_join_starts_with_first(parts, ", "@);
    let j = join(parts, ", "@);
    let want = ", { "@ + parts[0];
    assert((", { "@ + j + " }"@).take(want.len() as int) =~= ", { "@ + j.take(parts[0].len() as int));
}

/// A route sent with a method other than GET names its method, upper-case, first
/// in its request options; a GET route's options name no method.
pub proof fn law_request_options_method(r: RouteDefinition)
    ensures
        r.method == HttpMethod::Post ==> has_prefix(request_options(r), ", { method: \"POST\""@),
        r.method == HttpMethod::Put ==> has_prefix(request_options(r), ", { method: \"PUT\""@),
        r.method == HttpMethod::Patch ==> has_prefix(request_options(r), ", { method: \"PATCH\""@),
        r.method == HttpMethod::Delete ==> has_prefix(
            request_options(r),
            ", { method: \"DELETE\""@,
        ),
        r.method == HttpMethod::Get ==> !has_prefix(request_options(r), ", { method"@),
{
    reveal_strlit(", { ");
    reveal_strlit("method: \"");
    reveal_strlit("\"");
    reveal_strlit("POST");
    reveal_strlit("PUT");
    reveal_strlit("PATCH");
    reveal_strlit("DELETE");
    reveal_strlit(", { method: \"POST\"");
    reveal_strlit(", { method: \"PUT\"");
    reveal_strlit(", { method: \"PATCH\"");
    reveal_strlit(", { method: \"DELETE\"");
    reveal_strlit(", { method");
    reveal_strlit("auth: true");
    reveal_strlit("body");
    reveal_strlit("query");
    let parts = option_parts(r);
    if r.method != HttpMethod::Get {
        assert(parts[0] == "method: \""@ + method_name(r.method) + "\""@);
        lemma_options_start(r);
        let first = ", { "@ + parts[0];
        if r.method == HttpMethod::Post {
            assert(first =~= ", { method: \"POST\""@);
        } else if r.method == HttpMethod::Put {
            assert(first =~= ", { method: \"PUT\""@);
        } else if r.method == HttpMethod::Patch {
            assert(first =~= ", { method: \"PATCH\""@);
        } else {
            assert(first =~= ", { method: \"DELETE\""@);
        }
    } else if parts.len() > 0 {
        lemma_options_start(r);
        assert(parts[0].len() > 0 && parts[0][0] != 'm');
        let w = ", { "@ + parts[0];
        assert(request_options(r).take(w.len() as int)[4] == w[4]);
        assert(request_options(r)[4] == parts[0][0]);
        if has_prefix(request_options(r), ", { method"@) {
            assert(request_options(r).take(10)[4] == 'm');
        }
    }
}

/// The request options name `auth: true` exactly for a route that needs
/// authentication, `body` exactly for one with a body type and `query` exactly
/// for one with a query type; they are empty when there is nothing to name.
pub proof fn law_request_options_entries(r: RouteDefinition)
    ensures
        option_parts(r).contains("auth: true"@) <==> r.auth,
        option_parts(r).contains("body"@) <==> r.body_type is Some,
        option_parts(r).contains("query"@) <==> r.query_type is Some,
        request_options(r).len() == 0 <==> (r.method == HttpMethod::Get && !r.auth
            && r.body_type is None && r.query_type is None),
{
    reveal_strlit("method: \"");
    reveal_strlit("auth: true");
    reveal_strlit("body");
    reveal_strlit("query");
    reveal_strlit(", { ");
    let m = if r.method != HttpMethod::Get {
        seq!["method: \""@ + method_name(r.method) + "\""@]
    } else {
        Seq::<Seq<char>>::empty()
    };
    let a = if r.auth {
        seq!["auth: true"@]
    } else {
        Seq::<Seq<char>>::empty()
    };
    let b = if r.body_type is Some {
        seq!["body"@]
    } else {
        Seq::<Seq<char>>::empty()
    };
    let q = if r.query_type is Some {
        seq!["query"@]
    } else {
        Seq::<Seq<char>>::empty()
    };
    let parts = option_parts(r);
    assert(parts == m + a + b + q);
    assert forall|x: Seq<char>| #[trigger] parts.contains(x) <==> (m.contains(x) || a.contains(x)
        || b.contains(x) || q.contains(x)) by {
        if parts.contains(x) {
            let i = choose|i: int| 0 <= i < parts.len() && parts[i] == x;
            if i < m.len() {
                assert(m[i] == x);
            } else if i < m.len() + a.len() {
                assert(a[i - m.len()] == x);
            } else if i < m.len() + a.len() + b.len() {
                assert(b[i - m.len() - a.len()] == x);
            } else {
                assert(q[i - m.len() - a.len() - b.len()] == x);
            }
        }
        if m.contains(x) {
            assert(parts[0] == x);
        }
        if a.contains(x) {
            assert(parts[m.len() as int] == x);
        }
        if b.contains(x) {
            assert(parts[(m.len() + a.len()) as int] == x);
        }
        if q.contains(x) {
            assert(parts[(m.len() + a.len() + b.len()) as int] == x);
        }
    }
    if m.len() > 0 {
        let e = m[0];
        assert(e.len() > 0 && e[0] == 'm');
        assert(("auth: true"@)[0] == 'a' && ("body"@)[0] == 'b' && ("query"@)[0] == 'q');
        assert(e != "auth: true"@ && e != "body"@ && e != "query"@);
    }
    if r.auth {
        assert(a[0] == "auth: true"@);
    }
    if r.body_type is Some {
        assert(b[0] == "body"@);
    }
    if r.query_type is Some {
        assert(q[0] == "query"@);
    }
    assert("auth: true"@ != "body"@ && "auth: true"@ != "query"@ && "body"@ != "query"@) by {
        assert(("auth: true"@).len() != ("body"@).len());
        assert(("auth: true"@).len() != ("query"@).len());
        assert(("body"@).len() != ("query"@).len());
    }
}

/// The parameter list of a route's client function opens with its path
/// parameters, in order, each its own name as written in the path, unchanged,
/// typed `string`.
pub proof fn law_params_are_path_names(r: RouteDefinition)
    ensures
        forall|i: int|
            0 <= i < r.path_params@.len() ==> #[trigger] param_parts(r)[i] == r.path_params@[i].name@
                + ": string"@,
        r.path_params@.len() > 0 ==> has_prefix(
            join(param_parts(r), ", "@),
            r.path_params@[0].name@ + ": string"@,
        ),
{
    if r.path_params@.len() > 0 {
        lemma_join_starts_with_first(param_parts(r), ", "@);
    }
}

// ---------------------------------------------------------------------------
// Import paths
// ---------------------------------------------------------------------------

/// The names shared by the output directory and the bindings directory are their
/// longest common leading run: the first `k` names agree, and the next ones (where
/// both have one) differ. So the import climbs out of every output directory
/// name from the first mismatch on.
pub proof fn law_shared_names_are_longest_common_prefix(a: Seq<Seq<char>>, b: Seq<Seq<char>>)
    ensures
        common_len(a, b) <= a.len(),
        common_len(a, b) <= b.len(),
        a.take(common_len(a, b) as int) == b.take(common_len(a, b) as int),
        common_len(a, b) == a.len() || common_len(a, b) == b.len() || a[common_len(a, b) as int]
            != b[common_len(a, b) as int],
    decreases a.len(),
{
    let k = common_len(a, b) as int;
    if a.len() == 0 || b.len() == 0 || a[0] != b[0] {
        assert(a.take(0) =~= b.take(0));
    } else {
        law_shared_names_are_longest_common_prefix(a.skip(1), b.skip(1));
        assert(a.take(k) =~= seq![a[0]] + a.skip(1).take(k - 1));
        assert(b.take(k) =~= seq![b[0]] + b.skip(1).take(k - 1));
        if k < a.len() && k < b.len() {
            assert(a[k] == a.skip(1)[k - 1]);
            assert(b[k] == b.skip(1)[k - 1]);
        }
    }
}

// ---------------------------------------------------------------------------
// Sorted listings
// ---------------------------------------------------------------------------

/// `l` with `x` inserted in order, unless it is there.
pub open spec fn sort_insert(l: Seq<Seq<char>>, x: Seq<char>) -> Seq<Seq<char>>
    decreases l.len(),
{
    if l.len() == 0 {
        seq![x]
    } else if x == l[0] {
        l
    } else if lex_lt(x, l[0]) {
        seq![x] + l
    } else {
        seq![l[0]] + sort_insert(l.skip(1), x)
    }
}

proof fn lemma_sort_insert(l: Seq<Seq<char>>, x: Seq<char>)
    requires
        strictly_sorted(l),
    ensures
        strictly_sorted(sort_insert(l, x)),
        forall|y: Seq<char>| #[trigger] sort_insert(l, x).contains(y) <==> (l.contains(y) || y == x),
    decreases l.len(),
{
    let r = sort_insert(l, x);
    if l.len() == 0 {
        assert(r[0] == x);
    } else if x == l[0] {
        assert(l.contains(l[0]));
    } else if lex_lt(x, l[0]) {
        assert forall|i: int, j: int| 0 <= i < j < r.len() implies lex_lt(#[trigger] r[i], #[trigger] r[j]) by {
            if i == 0 {
                assert(r[j] == l[j - 1]);
                if j - 1 > 0 {
                    assert(lex_lt(l[0], l[j - 1]));
                    lemma_lex_transitive(x, l[0], l[j - 1]);
                }
            } else {
                assert(r[i] == l[i - 1] && r[j] == l[j - 1]);
            }
        }
        assert forall|y: Seq<char>| r.contains(y) <==> (l.contains(y) || y == x) by {
            if r.contains(y) {
                let i = choose|i: int| 0 <= i < r.len() && r[i] == y;
                if i > 0 {
                    assert(l[i - 1] == y);
                }
            }
            if l.contains(y) {
                let i = choose|i: int| 0 <= i < l.len() && l[i] == y;
                assert(r[i + 1] == y);
            }
            if y == x {
                assert(r[0] == y);
            }
        }
    } else {
        lemma_lex_total(x, l[0]);
        let t = l.skip(1);
        assert(strictly_sorted(t)) by {
            assert forall|i: int, j: int| 0 <= i < j < t.len() implies lex_lt(#[trigger] t[i], #[trigger] t[j]) by {
                assert(t[i] == l[i + 1] && t[j] == l[j + 1]);
            }
        }
        lemma_sort_insert(t, x);
        let rt = sort_insert(t, x);
        assert forall|y: Seq<char>| rt.contains(y) implies lex_lt(l[0], y) by {
            if t.contains(y) {
                let i = choose|i: int| 0 <= i < t.len() && t[i] == y;
                assert(l[i + 1] == y);
            }
        }
        assert forall|i: int, j: int| 0 <= i < j < r.len() implies lex_lt(#[trigger] r[i], #[trigger] r[j]) by {
            if i == 0 {
                assert(r[j] == rt[j - 1]);
                assert(rt.contains(rt[j - 1]));
            } else {
                assert(r[i] == rt[i - 1] && r[j] == rt[j - 1]);
            }
        }
        assert forall|y: Seq<char>| r.contains(y) <==> (l.contains(y) || y == x) by {
            if r.contains(y) {
                let i = choose|i: int| 0 <= i < r.len() && r[i] == y;
                if i > 0 {
                    assert(rt[i - 1] == y);
                    assert(rt.contains(y));
                    if t.contains(y) {
                        let k = choose|k: int| 0 <= k < t.len() && t[k] == y;
                        assert(l[k + 1] == y);
                    }
                } else {
                    assert(l[0] == y);
                }
            }
            if l.contains(y) {
                let i = choose|i: int| 0 <= i < l.len() && l[i] == y;
                if i > 0 {
                    assert(t[i - 1] == y);
                    assert(t.contains(y));
                    assert(rt.contains(y));
                    let k = choose|k: int| 0 <= k < rt.len() && rt[k] == y;
                    assert(r[k + 1] == y);
                } else {
                    assert(r[0] == y);
                }
            }
            if y == x {
                assert(rt.contains(y));
                let k = choose|k: int| 0 <= k < rt.len() && rt[k] == y;
                assert(r[k + 1] == y);
            }
        }
    }
}

/// The members of `s`, sorted and each once.
pub open spec fn sort_all(s: Seq<Seq<char>>) -> Seq<Seq<char>>
    decreases s.len(),
{
    if s.len() == 0 {
        Seq::<Seq<char>>::empty()
    } else {
        sort_insert(sort_all(s.drop_last()), s.last())
    }
}

proof fn lemma_sort_all(s: Seq<Seq<char>>)
    ensures
        strictly_sorted(sort_all(s)),
        forall|y: Seq<char>| #[trigger] sort_all(s).contains(y) <==> s.contains(y),
    decreases s.len(),
{
    if s.len() > 0 {
        lemma_sort_all(s.drop_last());
        lemma_sort_insert(sort_all(s.drop_last()), s.last());
        assert forall|y: Seq<char>| sort_all(s).contains(y) <==> s.contains(y) by {
            if s.drop_last().contains(y) {
                let i = choose|i: int| 0 <= i < s.drop_last().len() && s.drop_last()[i] == y;
                assert(s[i] == y);
            }
            if s.contains(y) {
                let i = choose|i: int| 0 <= i < s.len() && s[i] == y;
                if i < s.len() - 1 {
                    assert(s.drop_last()[i] == y);
                }
            }
        }
    }
}

/// Every set whose members are listed (with repeats, in any order) by a sequence
/// has a sorted listing.
pub proof fn lemma_listing_of_seq(s: Seq<Seq<char>>, set: Set<Seq<char>>)
    requires
        forall|y: Seq<char>| set.contains(y) <==> s.contains(y),
    ensures
        lists_sorted(sorted_listing(set), set),
{
    lemma_sort_all(s);
    assert(lists_sorted(sort_all(s), set));
    lemma_is_sorted_listing(sort_all(s), set);
}

/// The groups of the routes, listed once each.
pub open spec fn group_names(rs: Seq<RouteDefinition>) -> Seq<Seq<char>>
    decreases rs.len(),
{
    if rs.len() == 0 {
        Seq::<Seq<char>>::empty()
    } else {
        match rs.last().group {
            Some(g) => group_names(rs.drop_last()).push(g@),
            None => group_names(rs.drop_last()),
        }
    }
}

proof fn lemma_group_names(rs: Seq<RouteDefinition>)
    ensures
        forall|y: Seq<char>| group_set(rs).contains(y) <==> group_names(rs).contains(y),
    decreases rs.len(),
{
    if rs.len() > 0 {
        let front = rs.drop_last();
        lemma_group_names(front);
        assert forall|y: Seq<char>| group_set(rs).contains(y) <==> group_names(rs).contains(y) by {
            if group_set(rs).contains(y) {
                let j = choose|j: int| 0 <= j < rs.len() && #[trigger] crate::generator::opt_view(rs[j].group) == Some(y);
                if j < rs.len() - 1 {
                    assert(crate::generator::opt_view(front[j].group) == Some(y));
                    assert(group_set(front).contains(y));
                    let k = choose|k: int| 0 <= k < group_names(front).len() && group_names(front)[k] == y;
                    assert(group_names(rs)[k] == y);
                } else {
                    assert(group_names(rs).last() == y);
                }
            }
            if group_names(rs).contains(y) {
                let k = choose|k: int| 0 <= k < group_names(rs).len() && group_names(rs)[k] == y;
                if k < group_names(front).len() {
                    assert(group_names(front)[k] == y);
                    assert(group_set(front).contains(y));
                    let j = choose|j: int| 0 <= j < front.len() && #[trigger] crate::generator::opt_view(front[j].group) == Some(y);
                    assert(crate::generator::opt_view(rs[j].group) == Some(y));
                } else {
                    assert(crate::generator::opt_view(rs[rs.len() - 1].group) == Some(y));
                }
            }
        }
    }
}

/// In a grouped client each group's object appears once, groups in increasing
/// order of name.
pub proof fn law_groups_sorted_and_unique(rs: Seq<RouteDefinition>)
    ensures
        lists_sorted(sorted_listing(group_set(rs)), group_set(rs)),
{
    lemma_group_names(rs);
    lemma_listing_of_seq(group_names(rs), group_set(rs));
}

/// The custom types of a route, each field's base type in order.
pub open spec fn route_types(r: RouteDefinition) -> Seq<Seq<char>> {
    (match r.body_type {
        Some(t) => match base_type(t@) {
            Some(b) => seq![b],
            None => Seq::<Seq<char>>::empty(),
        },
        None => Seq::<Seq<char>>::empty(),
    }) + (match r.response_type {
        Some(t) => match base_type(t@) {
            Some(b) => seq![b],
            None => Seq::<Seq<char>>::empty(),
        },
        None => Seq::<Seq<char>>::empty(),
    }) + (match r.query_type {
        Some(t) => match base_type(t@) {
            Some(b) => seq![b],
            None => Seq::<Seq<char>>::empty(),
        },
        None => Seq::<Seq<char>>::empty(),
    })
}

/// The custom types of all routes, with repeats.
pub open spec fn all_types(rs: Seq<RouteDefinition>) -> Seq<Seq<char>>
    decreases rs.len(),
{
    if rs.len() == 0 {
        Seq::<Seq<char>>::empty()
    } else {
        all_types(rs.drop_last()) + route_types(rs.last())
    }
}

proof fn lemma_route_types(r: RouteDefinition)
    ensures
        forall|y: Seq<char>| route_types(r).contains(y) <==> uses_type(r, y),
{
    let b = match r.body_type {
        Some(t) => match base_type(t@) {
            Some(b) => seq![b],
            None => Seq::<Seq<char>>::empty(),
        },
        None => Seq::<Seq<char>>::empty(),
    };
    let p = match r.response_type {
        Some(t) => match base_type(t@) {
            Some(b) => seq![b],
            None => Seq::<Seq<char>>::empty(),
        },
        None => Seq::<Seq<char>>::empty(),
    };
    let q = match r.query_type {
        Some(t) => match base_type(t@) {
            Some(b) => seq![b],
            None => Seq::<Seq<char>>::empty(),
        },
        None => Seq::<Seq<char>>::empty(),
    };
    assert forall|y: Seq<char>| route_types(r).contains(y) <==> uses_type(r, y) by {
        let all = b + p + q;
        assert(route_types(r) == all);
        if all.contains(y) {
            let i = choose|i: int| 0 <= i < all.len() && all[i] == y;
            if i < b.len() {
                assert(b[i] == y);
            } else if i < b.len() + p.len() {
                assert(p[i - b.len()] == y);
            } else {
                assert(q[i - b.len() - p.len()] == y);
            }
        }
        if crate::generator::names_type(r.body_type, y) {
            assert(all[0] == y);
        } else if crate::generator::names_type(r.response_type, y) {
            assert(all[b.len() as int] == y);
        } else if crate::generator::names_type(r.query_type, y) {
            assert(all[(b.len() + p.len()) as int] == y);
        }
    }
}

proof fn lemma_all_types(rs: Seq<RouteDefinition>)
    ensures
        forall|y: Seq<char>| type_set(rs).contains(y) <==> all_types(rs).contains(y),
    decreases rs.len(),
{
    if rs.len() > 0 {
        let front = rs.drop_last();
        let last = rs.last();
        lemma_all_types(front);
        lemma_route_types(last);
        let a = all_types(front);
        let b = route_types(last);
        assert(all_types(rs) == a + b);
        assert forall|y: Seq<char>| type_set(rs).contains(y) <==> all_types(rs).contains(y) by {
            if type_set(rs).contains(y) {
                let j = choose|j: int| 0 <= j < rs.len() && #[trigger] uses_type(rs[j], y);
                if j < rs.len() - 1 {
                    assert(uses_type(front[j], y));
                    assert(type_set(front).contains(y));
                    let k = choose|k: int| 0 <= k < a.len() && a[k] == y;
                    assert((a + b)[k] == y);
                } else {
                    assert(b.contains(y));
                    let k = choose|k: int| 0 <= k < b.len() && b[k] == y;
                    assert((a + b)[a.len() + k] == y);
                }
            }
            if (a + b).contains(y) {
                let k = choose|k: int| 0 <= k < (a + b).len() && (a + b)[k] == y;
                if k < a.len() {
                    assert(a[k] == y);
                    assert(type_set(front).contains(y));
                    let j = choose|j: int| 0 <= j < front.len() && #[trigger] uses_type(front[j], y);
                    assert(uses_type(rs[j], y));
                } else {
                    assert(b[k - a.len()] == y);
                    assert(uses_type(rs[rs.len() - 1], y));
                }
            }
        }
    }
}

/// The generated client imports each custom type of the routes exactly once, in
/// increasing order of name, and nothing else.
pub proof fn law_imports_sorted_and_unique(rs: Seq<RouteDefinition>)
    ensures
        lists_sorted(sorted_listing(type_set(rs)), type_set(rs)),
{
    lemma_all_types(rs);
    lemma_listing_of_seq(all_types(rs), type_set(rs));
}

// ---------------------------------------------------------------------------
// Groups in the builder
// ---------------------------------------------------------------------------

/// From a `group(g)` call (or `no_group()`) to the next, every route finished
/// gets the group that call set, and the routes recorded before keep their places
/// (so their groups): `chain` are the builder's states, each the one before with
/// one route finished.
pub proof fn law_group_holds_until_changed<S: Clone + Send + Sync + 'static>(
    chain: Seq<ApiRouter<S>>,
)
    requires
        chain.len() > 0,
        forall|k: int|
            #![trigger chain[k]]
            0 <= k < chain.len() - 1 ==> adds_route_in_group(chain[k], chain[k + 1]),
    ensures
        chain.last().group_now() == chain[0].group_now(),
        chain.last().recorded().len() == chain[0].recorded().len() + chain.len() - 1,
        chain.last().recorded().take(chain[0].recorded().len() as int) == chain[0].recorded(),
        forall|i: int|
            chain[0].recorded().len() <= i < chain.last().recorded().len() ==> opt_view(
                #[trigger] chain.last().recorded()[i].group,
            ) == chain[0].group_now(),
    decreases chain.len(),
{
    if chain.len() > 1 {
        let front = chain.drop_last();
        assert forall|k: int| #![trigger front[k]] 0 <= k < front.len() - 1 implies adds_route_in_group(
            front[k],
            front[k + 1],
        ) by {
            assert(chain[k] == front[k]);
        }
        law_group_holds_until_changed(front);
        let prev = front.last();
        assert(prev == chain[chain.len() - 2]);
        assert(adds_route_in_group(chain[chain.len() - 2], chain[chain.len() - 1]));
        let last = chain.last();
        let n0 = chain[0].recorded().len() as int;
        assert(front[0] == chain[0]);
        assert(last.recorded() =~= prev.recorded().push(last.recorded().last()));
        assert(last.recorded().take(n0) =~= prev.recorded().take(n0));
        assert forall|i: int| n0 <= i < last.recorded().len() implies opt_view(
            #[trigger] last.recorded()[i].group,
        ) == chain[0].group_now() by {
            if i < prev.recorded().len() {
                assert(last.recorded()[i] == prev.recorded()[i]);
            }
        }
    }
}

// ---------------------------------------------------------------------------
// Collections
// ---------------------------------------------------------------------------

/// `a` with the routes of `o` pushed one at a time, in order.
pub open spec fn pushed_all(a: Seq<RouteDefinition>, o: Seq<RouteDefinition>) -> Seq<RouteDefinition>
    decreases o.len(),
{
    if o.len() == 0 {
        a
    } else {
        pushed_all(a, o.drop_last()).push(o.last())
    }
}

/// Extending a collection by another (`extend`: `a + o`) gives what pushing the
/// other's routes one by one, in order, gives (`push`: `.push(r)` each time).
pub proof fn law_extend_is_repeated_push(a: Seq<RouteDefinition>, o: Seq<RouteDefinition>)
    ensures
        a + o == pushed_all(a, o),
    decreases o.len(),
{
    if o.len() > 0 {
        law_extend_is_repeated_push(a, o.drop_last());
        assert(a + o =~= (a + o.drop_last()).push(o.last()));
    } else {
        assert(a + o =~= a);
    }
}

// ---------------------------------------------------------------------------
// Generation
// ---------------------------------------------------------------------------

/// A route is among those of group `g` exactly when it is a route with group `g`.
proof fn lemma_in_group_contains(rs: Seq<RouteDefinition>, g: Option<Seq<char>>, r: RouteDefinition)
    ensures
        in_group(rs, g).contains(r) <==> (rs.contains(r) && opt_view(r.group) == g),
    decreases rs.len(),
{
    if rs.len() > 0 {
        let front = rs.drop_last();
        lemma_in_group_contains(front, g, r);
        let f = in_group(front, g);
        if in_group(rs, g).contains(r) {
            let i = choose|i: int| 0 <= i < in_group(rs, g).len() && in_group(rs, g)[i] == r;
            if i < f.len() {
                assert(f[i] == r);
                let k = choose|k: int| 0 <= k < front.len() && front[k] == r;
                assert(rs[k] == r);
            } else {
                assert(rs[rs.len() - 1] == r);
            }
        }
        if rs.contains(r) && opt_view(r.group) == g {
            let k = choose|k: int| 0 <= k < rs.len() && rs[k] == r;
            if k < rs.len() - 1 {
                assert(front[k] == r);
                let i = choose|i: int| 0 <= i < f.len() && f[i] == r;
                assert(in_group(rs, g)[i] == r);
            } else {
                assert(in_group(rs, g) == f.push(r));
                assert(in_group(rs, g)[f.len() as int] == r);
            }
        }
    }
}

/// Each route of `rs1` is a route of `rs2` when every group holds the same routes.
proof fn lemma_same_groups_contains(rs1: Seq<RouteDefinition>, rs2: Seq<RouteDefinition>, r: RouteDefinition)
    requires
        forall|g: Option<Seq<char>>| #[trigger] in_group(rs1, g) == in_group(rs2, g),
        rs1.contains(r),
    ensures
        rs2.contains(r),
{
    let g = opt_view(r.group);
    lemma_in_group_contains(rs1, g, r);
    lemma_in_group_contains(rs2, g, r);
    assert(in_group(rs1, g) == in_group(rs2, g));
}

/// The same routes, possibly in another order, need the same imports and use the
/// same groups.
proof fn lemma_same_groups_sets(rs1: Seq<RouteDefinition>, rs2: Seq<RouteDefinition>)
    requires
        forall|g: Option<Seq<char>>| #[trigger] in_group(rs1, g) == in_group(rs2, g),
    ensures
        type_set(rs1) == type_set(rs2),
        group_set(rs1) == group_set(rs2),
{
    assert forall|n: Seq<char>| type_set(rs1).contains(n) implies type_set(rs2).contains(n) by {
        let j = choose|j: int| 0 <= j < rs1.len() && #[trigger] uses_type(rs1[j], n);
        assert(rs1.contains(rs1[j]));
        lemma_same_groups_contains(rs1, rs2, rs1[j]);
        let k = choose|k: int| 0 <= k < rs2.len() && rs2[k] == rs1[j];
        assert(uses_type(rs2[k], n));
    }
    assert forall|n: Seq<char>| type_set(rs2).contains(n) implies type_set(rs1).contains(n) by {
        let j = choose|j: int| 0 <= j < rs2.len() && #[trigger] uses_type(rs2[j], n);
        assert(rs2.contains(rs2[j]));
        lemma_same_groups_contains(rs2, rs1, rs2[j]);
        let k = choose|k: int| 0 <= k < rs1.len() && rs1[k] == rs2[j];
        assert(uses_type(rs1[k], n));
    }
    assert(type_set(rs1) =~= type_set(rs2));
    assert forall|g: Seq<char>| group_set(rs1).contains(g) implies group_set(rs2).contains(g) by {
        let j = choose|j: int| 0 <= j < rs1.len() && #[trigger] opt_view(rs1[j].group) == Some(g);
        assert(rs1.contains(rs1[j]));
        lemma_same_groups_contains(rs1, rs2, rs1[j]);
        let k = choose|k: int| 0 <= k < rs2.len() && rs2[k] == rs1[j];
        assert(opt_view(rs2[k].group) == Some(g));
    }
    assert forall|g: Seq<char>| group_set(rs2).contains(g) implies group_set(rs1).contains(g) by {
        let j = choose|j: int| 0 <= j < rs2.len() && #[trigger] opt_view(rs2[j].group) == Some(g);
        assert(rs2.contains(rs2[j]));
        lemma_same_groups_contains(rs2, rs1, rs2[j]);
        let k = choose|k: int| 0 <= k < rs1.len() && rs1[k] == rs2[j];
        assert(opt_view(rs1[k].group) == Some(g));
    }
    assert(group_set(rs1) =~= group_set(rs2));
}

proof fn lemma_group_blocks_same(
    names: Seq<Seq<char>>,
    rs1: Seq<RouteDefinition>,
    rs2: Seq<RouteDefinition>,
    lead: bool,
)
    requires
        forall|g: Option<Seq<char>>| #[trigger] in_group(rs1, g) == in_group(rs2, g),
    ensures
        group_blocks(names, rs1, lead) == group_blocks(names, rs2, lead),
    decreases names.len(),
{
    if names.len() > 0 {
        lemma_group_blocks_same(names.drop_last(), rs1, rs2, lead);
        assert(in_group(rs1, Some(names.last())) == in_group(rs2, Some(names.last())));
    }
}

/// With grouping on, the client depends on the routes of each group, in order, and
/// not on how the routes of different groups are interleaved.
pub proof fn law_grouped_ignores_interleaving(
    rs1: Seq<RouteDefinition>,
    rs2: Seq<RouteDefinition>,
    c: GeneratorConfig,
)
    requires
        c.enable_groups,
        forall|g: Option<Seq<char>>| #[trigger] in_group(rs1, g) == in_group(rs2, g),
    ensures
        client_source(rs1, c) == client_source(rs2, c),
{
    lemma_same_groups_sets(rs1, rs2);
    assert(in_group(rs1, None) == in_group(rs2, None));
    let names = sorted_listing(group_set(rs1));
    lemma_group_blocks_same(names, rs1, rs2, in_group(rs1, None).len() > 0);
    assert(grouped_routes(rs1) == grouped_routes(rs2));
}

/// `r` taken out of its group.
pub open spec fn without_group(r: RouteDefinition) -> RouteDefinition {
    RouteDefinition { group: None, ..r }
}

proof fn lemma_route_lines_without_groups(rs: Seq<RouteDefinition>, rs2: Seq<RouteDefinition>, indent: nat)
    requires
        rs2.len() == rs.len(),
        forall|i: int| 0 <= i < rs.len() ==> #[trigger] rs2[i] == without_group(rs[i]),
    ensures
        route_lines(rs, indent) == route_lines(rs2, indent),
        forall|g: Seq<char>| !(#[trigger] group_set(rs2).contains(g)),
        in_group(rs2, None) == rs2,
    decreases rs.len(),
{
    if rs.len() > 0 {
        lemma_route_lines_without_groups(rs.drop_last(), rs2.drop_last(), indent);
        assert(rs2.last() == without_group(rs.last()));
        assert(route_method(rs.last(), indent) == route_method(rs2.last(), indent));
        assert forall|g: Seq<char>| !(#[trigger] group_set(rs2).contains(g)) by {
            if group_set(rs2).contains(g) {
                let j = choose|j: int| 0 <= j < rs2.len() && #[trigger] opt_view(rs2[j].group) == Some(g);
                assert(rs2[j] == without_group(rs[j]));
            }
        }
        assert(rs2.drop_last().push(rs2.last()) =~= rs2);
    } else {
        assert forall|g: Seq<char>| !(#[trigger] group_set(rs2).contains(g)) by {
        }
    }
}

/// The flat client of some routes is the grouped client of the same routes with
/// their groups taken away: grouping without groups changes nothing.
pub proof fn law_flat_is_grouped_without_groups(
    rs: Seq<RouteDefinition>,
    rs2: Seq<RouteDefinition>,
    c: GeneratorConfig,
    c2: GeneratorConfig,
)
    requires
        rs2.len() == rs.len(),
        forall|i: int| 0 <= i < rs.len() ==> #[trigger] rs2[i] == without_group(rs[i]),
        !c.enable_groups,
        c2 == (GeneratorConfig { enable_groups: true, ..c }),
    ensures
        client_source(rs, c) == client_source(rs2, c2),
{
    lemma_route_lines_without_groups(rs, rs2, 4);
    assert(group_set(rs2) =~= Set::<Seq<char>>::empty());
    assert(lists_sorted(Seq::<Seq<char>>::empty(), Set::<Seq<char>>::empty()));
    lemma_is_sorted_listing(Seq::<Seq<char>>::empty(), Set::<Seq<char>>::empty());
    assert(grouped_routes(rs2) =~= route_lines(rs2, 4));
    assert forall|n: Seq<char>| type_set(rs).contains(n) <==> type_set(rs2).contains(n) by {
        if type_set(rs).contains(n) {
            let j = choose|j: int| 0 <= j < rs.len() && #[trigger] uses_type(rs[j], n);
            assert(uses_type(rs2[j], n));
        }
        if type_set(rs2).contains(n) {
            let j = choose|j: int| 0 <= j < rs2.len() && #[trigger] uses_type(rs2[j], n);
            assert(rs2[j] == without_group(rs[j]));
            assert(uses_type(rs[j], n));
        }
    }
    assert(type_set(rs) =~= type_set(rs2));
    assert(imports_part(rs, c) == imports_part(rs2, c2));
    assert(static_part(c) == static_part(c2));
    assert(factory_part(rs, c) == factory_part(rs2, c2));
    assert(type_export(c) == type_export(c2));
}

} // verus!
