//! Names derived from Rust type names: module paths stripped from a type's name,
//! a handler's own name picked out of its path, and `snake_case` turned into
//! `camelCase`.

use vstd::prelude::*;

use crate::text::{push_char, push_chars, str_chars};

verus! {

// ---------------------------------------------------------------------------
// Module paths
// ---------------------------------------------------------------------------

/// The characters that separate the names inside a generic type name.
pub open spec fn is_type_delim(c: char) -> bool {
    c == '<' || c == '>' || c == ',' || c == ' '
}

/// `s` holds two adjacent colons somewhere.
pub open spec fn has_pair(s: Seq<char>) -> bool
    decreases s.len(),
{
    s.len() >= 2 && ((s[0] == ':' && s[1] == ':') || has_pair(s.skip(1)))
}

/// What follows the last `::` of `s`, the `::` pairs being read from left to right
/// (so `:::x` leaves `:x`); all of `s` if it holds no `::`.
pub open spec fn after_pairs(s: Seq<char>) -> Seq<char>
    decreases s.len(),
{
    if s.len() >= 2 && s[0] == ':' && s[1] == ':' {
        after_pairs(s.skip(2))
    } else if s.len() == 0 {
        s
    } else if has_pair(s.skip(1)) {
        after_pairs(s.skip(1))
    } else {
        s
    }
}

/// The index of the first separator in `s`, or its length if it has none.
pub open spec fn delim_pos(s: Seq<char>) -> int
    decreases s.len(),
{
    if s.len() == 0 {
        0
    } else if is_type_delim(s[0]) {
        0
    } else {
        1 + delim_pos(s.skip(1))
    }
}

pub proof fn lemma_delim_pos_bounds(s: Seq<char>)
    ensures
        0 <= delim_pos(s) <= s.len(),
        delim_pos(s) < s.len() ==> is_type_delim(s[delim_pos(s)]),
        forall|i: int| 0 <= i < delim_pos(s) ==> !is_type_delim(#[trigger] s[i]),
    decreases s.len(),
{
    if s.len() > 0 && !is_type_delim(s[0]) {
        lemma_delim_pos_bounds(s.skip(1));
        assert forall|i: int| 0 <= i < delim_pos(s) implies !is_type_delim(#[trigger] s[i]) by {
            if i > 0 {
                assert(s[i] == s.skip(1)[i - 1]);
            }
        }
    }
}

/// The first separator of `s` stands at `k`.
pub proof fn lemma_delim_pos_at(s: Seq<char>, k: int)
    requires
        0 <= k <= s.len(),
        k < s.len() ==> is_type_delim(s[k]),
        forall|i: int| 0 <= i < k ==> !is_type_delim(#[trigger] s[i]),
    ensures
        delim_pos(s) == k,
    decreases s.len(),
{
    if s.len() > 0 && k > 0 {
        assert forall|i: int| 0 <= i < k - 1 implies !is_type_delim(#[trigger] s.skip(1)[i]) by {
            assert(s.skip(1)[i] == s[i + 1]);
        }
        lemma_delim_pos_at(s.skip(1), k - 1);
    }
}

/// `s` with the module path removed from every name in it: each run between the
/// separators `<`, `>`, `,` and space keeps only what follows its last `::`.
pub open spec fn stripped(s: Seq<char>) -> Seq<char>
    decreases s.len(),
{
    let k = delim_pos(s);
    proof {
        lemma_delim_pos_bounds(s);
    }
    if k >= s.len() {
        after_pairs(s)
    } else {
        after_pairs(s.take(k)) + seq![s[k]] + stripped(s.skip(k + 1))
    }
}

pub proof fn lemma_after_pairs_no_pair(s: Seq<char>)
    requires
        !has_pair(s),
    ensures
        after_pairs(s) == s,
{
}

/// Start of `after_pairs` of the window `cs[a..b]`.
fn after_pairs_start(cs: &[char], a: usize, b: usize) -> (res: usize)
    requires
        a <= b <= cs@.len(),
    ensures
        a <= res <= b,
        cs@.subrange(res as int, b as int) == after_pairs(cs@.subrange(a as int, b as int)),
{
    let ghost x = cs@.subrange(a as int, b as int);
    let mut start = a;
    let mut i = a;
    assert(x.skip(0) =~= x);
    while i < b
        invariant
            a <= start <= i <= b,
            b <= cs@.len(),
            x == cs@.subrange(a as int, b as int),
            after_pairs(x) == (if has_pair(cs@.subrange(i as int, b as int)) {
                after_pairs(cs@.subrange(i as int, b as int))
            } else {
                cs@.subrange(start as int, b as int)
            }),
        decreases b - i,
    {
        let ghost y = cs@.subrange(i as int, b as int);
        if cs[i] == ':' && i + 1 < b && cs[i + 1] == ':' {
            assert(y.skip(2) =~= cs@.subrange(i + 2, b as int));
            proof {
                if !has_pair(y.skip(2)) {
                    lemma_after_pairs_no_pair(y.skip(2));
                }
            }
            i = i + 2;
            start = i;
        } else {
            assert(y.skip(1) =~= cs@.subrange(i + 1, b as int));
            i = i + 1;
        }
    }
    start
}

/// Strip module paths from a type name as the standard library writes it.
///
/// `"alloc::vec::Vec<myapp::types::UserResponse>"` becomes `"Vec<UserResponse>"`.
pub fn strip_module_paths(full_name: &str) -> (res: String)
    ensures
        res@ == stripped(full_name@),
{
    let cs = str_chars(full_name);
    let n = cs.len();
    let mut out = String::new();
    let mut seg: usize = 0;
    let mut i: usize = 0;
    assert(cs@.skip(0) =~= cs@);
    while i < n
        invariant
            n == cs@.len(),
            seg <= i <= n,
            stripped(cs@) == out@ + stripped(cs@.skip(seg as int)),
            forall|k: int| seg <= k < i ==> !is_type_delim(#[trigger] cs@[k]),
        decreases n - i,
    {
        let c = cs[i];
        if c == '<' || c == '>' || c == ',' || c == ' ' {
            let ghost rest = cs@.skip(seg as int);
            proof {
                assert forall|k: int| 0 <= k < i - seg implies !is_type_delim(#[trigger] rest[k]) by {
                    assert(rest[k] == cs@[seg + k]);
                }
                lemma_delim_pos_at(rest, i - seg);
                assert(rest.take(i - seg) =~= cs@.subrange(seg as int, i as int));
                assert(rest.skip(i - seg + 1) =~= cs@.skip(i + 1));
            }
            let st = after_pairs_start(cs.as_slice(), seg, i);
            let piece = crate::text::sub_chars(cs.as_slice(), st, i);
            push_chars(&mut out, piece.as_slice());
            push_char(&mut out, c);
            seg = i + 1;
        }
        i = i + 1;
    }
    let ghost rest = cs@.skip(seg as int);
    proof {
        assert forall|k: int| 0 <= k < n - seg implies !is_type_delim(#[trigger] rest[k]) by {
            assert(rest[k] == cs@[seg + k]);
        }
        lemma_delim_pos_at(rest, n - seg);
        assert(rest =~= cs@.subrange(seg as int, n as int));
    }
    let st = after_pairs_start(cs.as_slice(), seg, n);
    let piece = crate::text::sub_chars(cs.as_slice(), st, n);
    push_chars(&mut out, piece.as_slice());
    out
}

// ---------------------------------------------------------------------------
// Handler names
// ---------------------------------------------------------------------------

/// Start of the last `::` in `s` (searching from the right), or -1.
pub open spec fn last_pair_start(s: Seq<char>) -> int
    decreases s.len(),
{
    if s.len() < 2 {
        -1
    } else if s[s.len() - 2] == ':' && s[s.len() - 1] == ':' {
        s.len() - 2
    } else {
        last_pair_start(s.drop_last())
    }
}

pub proof fn lemma_last_pair_start_bounds(s: Seq<char>)
    ensures
        -1 <= last_pair_start(s),
        last_pair_start(s) == -1 || last_pair_start(s) <= s.len() - 2,
    decreases s.len(),
{
    if s.len() >= 2 && !(s[s.len() - 2] == ':' && s[s.len() - 1] == ':') {
        lemma_last_pair_start_bounds(s.drop_last());
    }
}

/// `s` begins with `{`.
pub open spec fn starts_brace(s: Seq<char>) -> bool {
    s.len() > 0 && s[0] == '{'
}

/// Walking the `::`-separated pieces of `s` from the right, the first that does not
/// begin with `{`; `whole` if every piece does.
pub open spec fn pick_piece(s: Seq<char>, whole: Seq<char>) -> Seq<char>
    decreases s.len(),
{
    let k = last_pair_start(s);
    proof {
        lemma_last_pair_start_bounds(s);
    }
    if k < 0 {
        if starts_brace(s) {
            whole
        } else {
            s
        }
    } else if !starts_brace(s.skip(k + 2)) {
        s.skip(k + 2)
    } else {
        pick_piece(s.take(k), whole)
    }
}

/// The function's own name in a path such as the standard library gives for a
/// function item: the last `::`-separated piece that does not begin with `{`.
pub open spec fn handler_name(s: Seq<char>) -> Seq<char> {
    pick_piece(s, s)
}

/// Extract the function name from the full path of a function item.
///
/// `"myapp::plugins::email_password::register"` gives `"register"`.
pub fn handler_name_from_type_name(full_name: &str) -> (res: &str)
    ensures
        res@ == handler_name(full_name@),
{
    let cs = str_chars(full_name);
    let ghost whole = cs@;
    let n = cs.len();
    let mut j = n;
    let mut i = n;
    assert(cs@.take(n as int) =~= cs@);
    while i >= 2
        invariant
            n == cs@.len(),
            whole == cs@,
            cs@ == full_name@,
            i <= j <= n,
            last_pair_start(cs@.take(j as int)) == last_pair_start(cs@.take(i as int)),
            handler_name(whole) == pick_piece(cs@.take(j as int), whole),
        decreases i,
    {
        let ghost ti = cs@.take(i as int);
        if cs[i - 2] == ':' && cs[i - 1] == ':' {
            let ghost tj = cs@.take(j as int);
            assert(ti[i - 2] == ':' && ti[i - 1] == ':');
            assert(last_pair_start(tj) == i - 2);
            assert(tj.skip(i as int) =~= cs@.subrange(i as int, j as int));
            assert(tj.take(i - 2) =~= cs@.take(i - 2));
            if !(j > i && cs[i] == '{') {
                return full_name.substring_char(i, j);
            }
            j = i - 2;
            i = i - 2;
        } else {
            assert(ti.drop_last() =~= cs@.take(i - 1));
            i = i - 1;
        }
    }
    assert(last_pair_start(cs@.take(i as int)) == -1);
    if !(j > 0 && cs[0] == '{') {
        assert(cs@.take(j as int) =~= cs@.subrange(0, j as int));
        full_name.substring_char(0, j)
    } else {
        assert(cs@.subrange(0, n as int) =~= cs@);
        full_name.substring_char(0, n)
    }
}

// ---------------------------------------------------------------------------
// camelCase
// ---------------------------------------------------------------------------

/// ASCII upper case of `c`; other characters unchanged.
pub open spec fn ascii_upper(c: char) -> char {
    if 'a' <= c <= 'z' {
        ((c as int) - 32) as char
    } else {
        c
    }
}

/// `s` with each `_` removed and the character after it in ASCII upper case;
/// `cap` says whether the first character follows a removed `_`.
pub open spec fn camel_from(s: Seq<char>, cap: bool) -> Seq<char>
    decreases s.len(),
{
    if s.len() == 0 {
        Seq::<char>::empty()
    } else if s[0] == '_' {
        camel_from(s.skip(1), true)
    } else {
        seq![if cap { ascii_upper(s[0]) } else { s[0] }] + camel_from(s.skip(1), false)
    }
}

/// The `camelCase` form of a `snake_case` name.
pub open spec fn camel(s: Seq<char>) -> Seq<char> {
    camel_from(s, false)
}

fn to_ascii_upper(c: char) -> (res: char)
    ensures
        res == ascii_upper(c),
{
    if 'a' <= c && c <= 'z' {
        ((c as u8) - 32) as char
    } else {
        c
    }
}

/// Convert `snake_case` to `camelCase`.
///
/// `"forgot_password"` gives `"forgotPassword"`; `"register"` is unchanged.
pub fn snake_to_camel(s: &str) -> (res: String)
    ensures
        res@ == camel(s@),
{
    let cs = str_chars(s);
    let n = cs.len();
    let mut out = String::new();
    let mut cap = false;
    let mut i: usize = 0;
    assert(cs@.skip(0) =~= cs@);
    while i < n
        invariant
            n == cs@.len(),
            i <= n,
            camel(cs@) == out@ + camel_from(cs@.skip(i as int), cap),
        decreases n - i,
    {
        let ghost rest = cs@.skip(i as int);
        assert(rest[0] == cs@[i as int]);
        assert(rest.skip(1) =~= cs@.skip(i + 1));
        let c = cs[i];
        if c == '_' {
            cap = true;
        } else if cap {
            push_char(&mut out, to_ascii_upper(c));
            cap = false;
        } else {
            push_char(&mut out, c);
        }
        i = i + 1;
    }
    out
}

} // verus!
