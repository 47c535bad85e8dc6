//! Mapping of Rust type names (as written in route metadata) to TypeScript.

use vstd::prelude::*;

use crate::text::{
    chars_eq_str, has_prefix, push_chars, starts_with_str, str_chars, sub_chars, trim,
    trim_bounds,
};

verus! {

/// Type names that need no import: they map to a TypeScript primitive.
pub open spec fn is_primitive_name(t: Seq<char>) -> bool {
    ||| t == "String"@
    ||| t == "&str"@
    ||| t == "Uuid"@
    ||| t == "bool"@
    ||| t == "u8"@
    ||| t == "u16"@
    ||| t == "u32"@
    ||| t == "u64"@
    ||| t == "i8"@
    ||| t == "i16"@
    ||| t == "i32"@
    ||| t == "i64"@
    ||| t == "f32"@
    ||| t == "f64"@
    ||| t == "usize"@
    ||| t == "isize"@
}

/// For `t` of the form `Vec<X>`, the text `X`.
pub open spec fn vec_inner(t: Seq<char>) -> Option<Seq<char>> {
    if has_prefix(t, "Vec<"@) && t.len() >= 5 && t.last() == '>' {
        Some(t.subrange(4, t.len() - 1))
    } else {
        None
    }
}

/// For `t` of the form `Option<X>`, the text `X`.
pub open spec fn option_inner(t: Seq<char>) -> Option<Seq<char>> {
    if has_prefix(t, "Option<"@) && t.len() >= 8 && t.last() == '>' {
        Some(t.subrange(7, t.len() - 1))
    } else {
        None
    }
}

pub proof fn lemma_trim_len(s: Seq<char>)
    ensures
        trim(s).len() <= s.len(),
{
    lemma_trim_start_len(s);
    lemma_trim_end_len(crate::text::trim_start(s));
}

proof fn lemma_trim_start_len(s: Seq<char>)
    ensures
        crate::text::trim_start(s).len() <= s.len(),
    decreases s.len(),
{
    if s.len() > 0 && crate::text::is_ws(s[0]) {
        lemma_trim_start_len(s.skip(1));
    }
}

proof fn lemma_trim_end_len(s: Seq<char>)
    ensures
        crate::text::trim_end(s).len() <= s.len(),
    decreases s.len(),
{
    if s.len() > 0 && crate::text::is_ws(s.last()) {
        lemma_trim_end_len(s.drop_last());
    }
}

/// The innermost type name: surrounding whitespace and `Vec<..>` / `Option<..>`
/// wrappers removed, repeatedly.
pub open spec fn innermost(s: Seq<char>) -> Seq<char>
    decreases s.len(),
{
    let t = trim(s);
    proof {
        lemma_trim_len(s);
    }
    match vec_inner(t) {
        Some(inner) => innermost(inner),
        None => match option_inner(t) {
            Some(inner) => innermost(inner),
            None => t,
        },
    }
}

/// The TypeScript type for a Rust type name: `Vec<X>` becomes `X[]` (with `X` in
/// parentheses when it is an `Option`, so `Vec<Option<T>>` is `(T | null)[]`, an
/// array of nullable elements), `Option<X>` becomes `X | null`, string-like names
/// `string`, `bool` `boolean`, the numeric primitives `number`; any other name
/// stays as it is (after trimming).
pub open spec fn ts_type(s: Seq<char>) -> Seq<char>
    decreases s.len(),
{
    let t = trim(s);
    proof {
        lemma_trim_len(s);
    }
    match vec_inner(t) {
        Some(inner) => if option_inner(trim(inner)) is Some {
            "("@ + ts_type(inner) + ")[]"@
        } else {
            ts_type(inner) + "[]"@
        },
        None => match option_inner(t) {
            Some(inner) => ts_type(inner) + " | null"@,
            None => if t == "String"@ || t == "&str"@ || t == "Uuid"@ {
                "string"@
            } else if t == "bool"@ {
                "boolean"@
            } else if is_primitive_name(t) {
                "number"@
            } else {
                t
            },
        },
    }
}

/// The custom type a Rust type name refers to, if it needs an import.
pub open spec fn base_type(s: Seq<char>) -> Option<Seq<char>> {
    if is_primitive_name(innermost(s)) {
        None
    } else {
        Some(innermost(s))
    }
}

fn is_primitive_chars(t: &[char]) -> (res: bool)
    ensures
        res == is_primitive_name(t@),
{
    chars_eq_str(t, "String") || chars_eq_str(t, "&str") || chars_eq_str(t, "Uuid")
        || chars_eq_str(t, "bool") || chars_eq_str(t, "u8") || chars_eq_str(t, "u16")
        || chars_eq_str(t, "u32") || chars_eq_str(t, "u64") || chars_eq_str(t, "i8")
        || chars_eq_str(t, "i16") || chars_eq_str(t, "i32") || chars_eq_str(t, "i64")
        || chars_eq_str(t, "f32") || chars_eq_str(t, "f64") || chars_eq_str(t, "usize")
        || chars_eq_str(t, "isize")
}

/// The bounds of the text inside a `prefix .. >` wrapper of the window `cs[a..b]`.
fn wrapper_bounds(cs: &[char], a: usize, b: usize, prefix: &str) -> (res: Option<(usize, usize)>)
    requires
        a <= b <= cs@.len(),
    ensures
        ({
            let t = cs@.subrange(a as int, b as int);
            match res {
                Some((x, y)) => {
                    &&& has_prefix(t, prefix@)
                    &&& t.len() >= prefix@.len() + 1
                    &&& t.last() == '>'
                    &&& x == a + prefix@.len()
                    &&& y == b - 1
                },
                None => !(has_prefix(t, prefix@) && t.len() >= prefix@.len() + 1 && t.last()
                    == '>'),
            }
        }),
{
    let t = sub_chars(cs, a, b);
    let n = prefix.unicode_len();
    if starts_with_str(t.as_slice(), prefix) && t.len() > n && t[t.len() - 1] == '>' {
        Some((a + n, b - 1))
    } else {
        None
    }
}

/// Bounds of the innermost type name of the window `cs[a..b]`.
fn innermost_bounds(cs: &[char], a: usize, b: usize) -> (res: (usize, usize))
    requires
        a <= b <= cs@.len(),
    ensures
        a <= res.0 <= res.1 <= b,
        cs@.subrange(res.0 as int, res.1 as int) == innermost(cs@.subrange(a as int, b as int)),
    decreases b - a,
{
    let ghost s = cs@.subrange(a as int, b as int);
    let (x, y) = trim_bounds(cs, a, b);
    let ghost t = cs@.subrange(x as int, y as int);
    proof {
        reveal_strlit("Vec<");
        reveal_strlit("Option<");
        assert(vec_inner(t) is Some ==> option_inner(t) is None) by {
            if vec_inner(t) is Some && option_inner(t) is Some {
                assert(t.take(4)[0] == 'V');
                assert(t.take(7)[0] == 'O');
            }
        }
    }
    match wrapper_bounds(cs, x, y, "Vec<") {
        Some((p, q)) => {
            assert(cs@.subrange(p as int, q as int) =~= t.subrange(4, t.len() - 1));
            innermost_bounds(cs, p, q)
        },
        None => match wrapper_bounds(cs, x, y, "Option<") {
            Some((p, q)) => {
                assert(cs@.subrange(p as int, q as int) =~= t.subrange(7, t.len() - 1));
                innermost_bounds(cs, p, q)
            },
            None => (x, y),
        },
    }
}

/// Recursively strip `Vec<>`/`Option<>` wrappers, returning the innermost type name.
pub fn unwrap_inner(rust_type: &str) -> (res: &str)
    ensures
        res@ == innermost(rust_type@),
{
    let cs = str_chars(rust_type);
    let (a, b) = innermost_bounds(cs.as_slice(), 0, cs.len());
    assert(cs@.subrange(0, cs@.len() as int) =~= cs@);
    rust_type.substring_char(a, b)
}

fn ts_type_chars(cs: &[char], a: usize, b: usize, out: &mut String)
    requires
        a <= b <= cs@.len(),
    ensures
        final(out)@ == old(out)@ + ts_type(cs@.subrange(a as int, b as int)),
    decreases b - a,
{
    let (x, y) = trim_bounds(cs, a, b);
    let ghost t = cs@.subrange(x as int, y as int);
    proof {
        reveal_strlit("Vec<");
        reveal_strlit("Option<");
        assert(vec_inner(t) is Some ==> option_inner(t) is None) by {
            if vec_inner(t) is Some && option_inner(t) is Some {
                assert(t.take(4)[0] == 'V');
                assert(t.take(7)[0] == 'O');
            }
        }
    }
    match wrapper_bounds(cs, x, y, "Vec<") {
        Some((p, q)) => {
            assert(cs@.subrange(p as int, q as int) =~= t.subrange(4, t.len() - 1));
            let (r, w) = trim_bounds(cs, p, q);
            if wrapper_bounds(cs, r, w, "Option<").is_some() {
                out.append("(");
                ts_type_chars(cs, p, q, out);
                out.append(")[]");
            } else {
                ts_type_chars(cs, p, q, out);
                out.append("[]");
            }
        },
        None => match wrapper_bounds(cs, x, y, "Option<") {
            Some((p, q)) => {
                assert(cs@.subrange(p as int, q as int) =~= t.subrange(7, t.len() - 1));
                ts_type_chars(cs, p, q, out);
                out.append(" | null");
            },
            None => {
                let tc = sub_chars(cs, x, y);
                if chars_eq_str(tc.as_slice(), "String") || chars_eq_str(tc.as_slice(), "&str")
                    || chars_eq_str(tc.as_slice(), "Uuid") {
                    out.append("string");
                } else if chars_eq_str(tc.as_slice(), "bool") {
                    out.append("boolean");
                } else if is_primitive_chars(tc.as_slice()) {
                    out.append("number");
                } else {
                    push_chars(out, tc.as_slice());
                }
            },
        },
    }
}

/// Appends the TypeScript type for a Rust type name to `out`.
pub fn push_ts_type(out: &mut String, rust_type: &str)
    ensures
        final(out)@ == old(out)@ + ts_type(rust_type@),
{
    let cs = str_chars(rust_type);
    assert(cs@.subrange(0, cs@.len() as int) =~= cs@);
    ts_type_chars(cs.as_slice(), 0, cs.len(), out);
}

/// Convert a Rust type name to a TypeScript type string.
pub fn rust_type_to_ts(rust_type: &str) -> (res: String)
    ensures
        res@ == ts_type(rust_type@),
{
    let mut out = String::new();
    push_ts_type(&mut out, rust_type);
    out
}

/// Check if a type is a primitive (doesn't need an import).
pub fn is_primitive_type(rust_type: &str) -> (res: bool)
    ensures
        res == is_primitive_name(innermost(rust_type@)),
{
    let base = unwrap_inner(rust_type);
    let cs = str_chars(base);
    is_primitive_chars(cs.as_slice())
}

/// Get the base custom type name for imports (unwrapping Vec/Option, skipping primitives).
pub fn base_type_name(rust_type: &str) -> (res: Option<&str>)
    ensures
        match res {
            Some(r) => base_type(rust_type@) == Some(r@),
            None => base_type(rust_type@) is None,
        },
{
    let base = unwrap_inner(rust_type);
    let cs = str_chars(base);
    if is_primitive_chars(cs.as_slice()) {
        None
    } else {
        Some(base)
    }
}

} // verus!
