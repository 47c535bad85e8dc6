//! Text building blocks of the generated client: joined lists, indentation,
//! placeholder substitution and path templates.

use vstd::prelude::*;

use crate::text::{chars_eq, has_prefix, push_char, push_chars, starts_with_str, str_chars};

verus! {

/// The views of a sequence of strings.
pub open spec fn string_seqs(v: Seq<String>) -> Seq<Seq<char>> {
    Seq::new(v.len(), |i: int| v[i]@)
}

/// `parts` with `sep` between each two neighbours.
pub open spec fn join(parts: Seq<Seq<char>>, sep: Seq<char>) -> Seq<char>
    decreases parts.len(),
{
    if parts.len() == 0 {
        Seq::<char>::empty()
    } else if parts.len() == 1 {
        parts[0]
    } else {
        join(parts.drop_last(), sep) + sep + parts.last()
    }
}

/// `n` spaces.
pub open spec fn spaces(n: nat) -> Seq<char> {
    Seq::new(n, |i: int| ' ')
}

/// `s` repeated `n` times.
pub open spec fn repeat(s: Seq<char>, n: nat) -> Seq<char>
    decreases n,
{
    if n == 0 {
        Seq::<char>::empty()
    } else {
        repeat(s, (n - 1) as nat) + s
    }
}

/// Every occurrence of `pat` in `s`, found from left to right without overlap,
/// replaced by `rep`, as `str::replace` does.
pub open spec fn replace_all(s: Seq<char>, pat: Seq<char>, rep: Seq<char>) -> Seq<char>
    decreases s.len(),
{
    if pat.len() == 0 || s.len() < pat.len() {
        s
    } else if s.take(pat.len() as int) == pat {
        rep + replace_all(s.skip(pat.len() as int), pat, rep)
    } else {
        seq![s[0]] + replace_all(s.skip(1), pat, rep)
    }
}

/// `s` with every `{` written as `${`.
pub open spec fn dollar_braces(s: Seq<char>) -> Seq<char>
    decreases s.len(),
{
    if s.len() == 0 {
        Seq::<char>::empty()
    } else if s.last() == '{' {
        dollar_braces(s.drop_last()) + "${"@
    } else {
        dollar_braces(s.drop_last()).push(s.last())
    }
}

/// The TypeScript expression for a route path: a string literal in double quotes
/// when the path has no `{`, else a template literal in which `{name}` becomes
/// `${name}`.
pub open spec fn path_template(path: Seq<char>) -> Seq<char> {
    if !path.contains('{') {
        "\""@ + path + "\""@
    } else {
        "`"@ + dollar_braces(path) + "`"@
    }
}

/// The type name exported for a factory: its name without a leading `create`.
pub open spec fn type_name_for(factory: Seq<char>) -> Seq<char> {
    if has_prefix(factory, "create"@) {
        factory.skip(6)
    } else {
        factory
    }
}

/// Appends `parts` separated by `sep`.
pub fn push_joined(out: &mut String, parts: &Vec<String>, sep: &str)
    ensures
        final(out)@ == old(out)@ + join(string_seqs(parts@), sep@),
{
    let n = parts.len();
    let mut i: usize = 0;
    while i < n
        invariant
            n == parts@.len(),
            i <= n,
            out@ == old(out)@ + join(string_seqs(parts@).take(i as int), sep@),
        decreases n - i,
    {
        let ghost s = string_seqs(parts@);
        assert(s.take(i + 1).drop_last() =~= s.take(i as int));
        assert(s.take(i + 1).last() == parts@[i as int]@);
        if i > 0 {
            out.append(sep);
        } else {
            assert(s.take(1) =~= seq![parts@[0]@]);
        }
        out.append(parts[i].as_str());
        i = i + 1;
    }
    assert(string_seqs(parts@).take(n as int) =~= string_seqs(parts@));
}

/// Appends `n` spaces.
pub fn push_spaces(out: &mut String, n: usize)
    ensures
        final(out)@ == old(out)@ + spaces(n as nat),
{
    let mut i: usize = 0;
    while i < n
        invariant
            i <= n,
            out@ == old(out)@ + spaces(i as nat),
        decreases n - i,
    {
        push_char(out, ' ');
        assert(spaces(i as nat).push(' ') =~= spaces((i + 1) as nat));
        i = i + 1;
    }
}

/// Appends `s` repeated `n` times.
pub fn push_repeated(out: &mut String, s: &str, n: usize)
    ensures
        final(out)@ == old(out)@ + repeat(s@, n as nat),
{
    let mut i: usize = 0;
    while i < n
        invariant
            i <= n,
            out@ == old(out)@ + repeat(s@, i as nat),
        decreases n - i,
    {
        out.append(s);
        assert(repeat(s@, (i + 1) as nat) == repeat(s@, i as nat) + s@);
        i = i + 1;
    }
}

/// Appends `s` with every occurrence of `pat` replaced by `rep`.
pub fn push_replaced(out: &mut String, s: &[char], pat: &[char], rep: &[char])
    ensures
        final(out)@ == old(out)@ + replace_all(s@, pat@, rep@),
{
    let n = s.len();
    let m = pat.len();
    if m == 0 {
        push_chars(out, s);
        return;
    }
    let mut i: usize = 0;
    assert(s@.skip(0) =~= s@);
    while i < n
        invariant
            n == s@.len(),
            m == pat@.len(),
            m > 0,
            i <= n,
            old(out)@ + replace_all(s@, pat@, rep@) == out@ + replace_all(
                s@.skip(i as int),
                pat@,
                rep@,
            ),
        decreases n - i,
    {
        let ghost rest = s@.skip(i as int);
        if n - i >= m {
            let head = crate::text::sub_chars(s, i, i + m);
            assert(head@ =~= rest.take(m as int));
            if chars_eq(head.as_slice(), pat) {
                assert(rest.skip(m as int) =~= s@.skip(i + m));
                push_chars(out, rep);
                i = i + m;
                continue;
            }
        }
        assert(rest.skip(1) =~= s@.skip(i + 1));
        assert(rest[0] == s@[i as int]);
        push_char(out, s[i]);
        assert(seq![s@[i as int]] + replace_all(rest.skip(1), pat@, rep@) == replace_all(
            rest,
            pat@,
            rep@,
        ));
        i = i + 1;
    }
    assert(s@.skip(n as int) =~= Seq::<char>::empty());
}

/// Appends the TypeScript expression for a route path.
pub fn push_path_template(out: &mut String, path: &str)
    ensures
        final(out)@ == old(out)@ + path_template(path@),
{
    let cs = str_chars(path);
    let n = cs.len();
    let mut has_brace = false;
    let mut k: usize = 0;
    while k < n
        invariant
            n == cs@.len(),
            k <= n,
            has_brace == cs@.take(k as int).contains('{'),
        decreases n - k,
    {
        assert(cs@.take(k + 1) =~= cs@.take(k as int).push(cs@[k as int]));
        if cs[k] == '{' {
            assert(cs@.take(k + 1)[k as int] == '{');
            has_brace = true;
        }
        k = k + 1;
    }
    assert(cs@.take(n as int) =~= cs@);
    if !has_brace {
        out.append("\"");
        push_chars(out, cs.as_slice());
        out.append("\"");
    } else {
        out.append("`");
        let mut i: usize = 0;
        let ghost start = out@;
        while i < n
            invariant
                n == cs@.len(),
                i <= n,
                out@ == start + dollar_braces(cs@.take(i as int)),
            decreases n - i,
        {
            assert(cs@.take(i + 1).drop_last() =~= cs@.take(i as int));
            if cs[i] == '{' {
                out.append("${");
            } else {
                push_char(out, cs[i]);
            }
            i = i + 1;
        }
        out.append("`");
    }
}

/// Build the path template string for TypeScript.
///
/// `/admin/users/{id}` gives `` `/admin/users/${id}` ``.
pub fn build_path_template(path: &str) -> (res: String)
    ensures
        res@ == path_template(path@),
{
    let mut out = String::new();
    push_path_template(&mut out, path);
    out
}

/// Derive a type name from a factory function name.
///
/// `createYAuthClient` gives `YAuthClient`.
pub fn derive_type_name(factory_name: &str) -> (res: String)
    ensures
        res@ == type_name_for(factory_name@),
{
    let cs = str_chars(factory_name);
    if starts_with_str(cs.as_slice(), "create") {
        proof {
            reveal_strlit("create");
        }
        let rest = crate::text::sub_chars(cs.as_slice(), 6, cs.len());
        assert(rest@ =~= cs@.skip(6));
        crate::text::chars_to_string(rest.as_slice())
    } else {
        crate::text::chars_to_string(cs.as_slice())
    }
}

} // verus!
