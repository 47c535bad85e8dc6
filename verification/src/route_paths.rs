//! Route paths as Axum's router reads them: which paths it accepts, and which two
//! paths it cannot hold side by side.
//!
//! The router's matcher first reads `{{` and `}}` as escaped, literal braces, then
//! scans the path left to right (`step`): a `{name}` capture must end its segment,
//! a `{*name}` catch-all must end the path. Two different paths clash when they
//! have the same shape (capture names erased) or when, after the same shape
//! prefix, one has a capture where the other has a catch-all.

use vstd::prelude::*;

use crate::text::{chars_eq, str_chars};
use crate::types::HttpMethod;

verus! {

/// Outside any capture.
pub const OUT: u8 = 0;

/// Just after the `{` that opens a capture.
pub const OPENED: u8 = 1;

/// Inside the name of a `{name}` capture.
pub const IN_PARAM: u8 = 2;

/// Just after the `{*` that opens a catch-all.
pub const STAR: u8 = 3;

/// Inside the name of a `{*name}` catch-all.
pub const IN_CATCH_ALL: u8 = 4;

/// Just after the `}` that closes a capture: the segment must end here.
pub const AFTER_PARAM: u8 = 5;

/// Just after the `}` that closes a catch-all: the path must end here.
pub const AFTER_CATCH_ALL: u8 = 6;

/// The most `{name}` captures one path may hold.
pub const MAX_CAPTURES: u8 = 25;

/// The characters of a path with each `{{` and `}}` read, from left to right, as
/// one brace marked escaped (`true`); every other character is unmarked.
pub open spec fn unescape(raw: Seq<char>) -> Seq<(char, bool)>
    decreases raw.len(),
{
    if raw.len() == 0 {
        Seq::empty()
    } else if raw.len() >= 2 && ((raw[0] == '{' && raw[1] == '{') || (raw[0] == '}' && raw[1]
        == '}')) {
        seq![(raw[0], true)] + unescape(raw.skip(2))
    } else {
        seq![(raw[0], false)] + unescape(raw.skip(1))
    }
}

/// One step of the matcher's scan: from state `st`, having closed `captures`
/// captures, read the character `c` (escaped when `esc`). `None` where the
/// matcher refuses the path: an unescaped `}` outside a capture, an empty name,
/// `*` or `/` inside a name, text after a capture in its segment, anything after a
/// catch-all, or one capture too many. Escaped braces are literal text, also
/// inside a name.
pub open spec fn step(st: u8, c: char, esc: bool, captures: nat) -> Option<(u8, nat)> {
    if st == OUT {
        if c == '{' && !esc {
            Some((OPENED, captures))
        } else if c == '}' && !esc {
            None
        } else {
            Some((OUT, captures))
        }
    } else if st == OPENED {
        if c == '}' {
            None
        } else if c == '*' {
            Some((STAR, captures))
        } else {
            Some((IN_PARAM, captures))
        }
    } else if st == IN_PARAM {
        if c == '}' && !esc {
            if captures < MAX_CAPTURES {
                Some((AFTER_PARAM, captures + 1))
            } else {
                None
            }
        } else if c == '*' || c == '/' {
            None
        } else {
            Some((IN_PARAM, captures))
        }
    } else if st == STAR {
        if (c == '}' && !esc) || c == '*' || c == '/' {
            None
        } else {
            Some((IN_CATCH_ALL, captures))
        }
    } else if st == IN_CATCH_ALL {
        if c == '}' && !esc {
            Some((AFTER_CATCH_ALL, captures))
        } else if c == '*' || c == '/' {
            None
        } else {
            Some((IN_CATCH_ALL, captures))
        }
    } else if st == AFTER_PARAM {
        if c == '/' {
            Some((OUT, captures))
        } else {
            None
        }
    } else {
        None
    }
}

/// Whether the rest `u` of an unescaped path, scanned from state `st` with
/// `captures` captures closed, is accepted: no step refuses it and it ends outside
/// an open capture.
pub open spec fn scan_ok(u: Seq<(char, bool)>, st: u8, captures: nat) -> bool
    decreases u.len(),
{
    if u.len() == 0 {
        st == OUT || st == AFTER_PARAM || st == AFTER_CATCH_ALL
    } else {
        match step(st, u[0].0, u[0].1, captures) {
            Some((next, n)) => scan_ok(u.drop_first(), next, n),
            None => false,
        }
    }
}

/// No `/`-separated segment of `path` starts with `:` or `*` (Axum's check for the
/// capture syntax it no longer takes).
pub open spec fn no_old_captures(path: Seq<char>) -> bool {
    forall|i: int|
        0 <= i < path.len() - 1 && #[trigger] path[i] == '/' ==> path[i + 1] != ':' && path[i
            + 1] != '*'
}

/// A path that Axum's router accepts: it starts with `/`, no segment starts with
/// `:` or `*`, and the matcher's scan of it, braces unescaped, succeeds: each
/// `{name}` capture ends its segment, a `{*name}` catch-all ends the path, names
/// are not empty and hold no `*` or `/` (`/` may only come first in a `{name}`),
/// an unescaped `}` only closes a capture, and there are at most 25 captures.
pub open spec fn route_path_ok(path: Seq<char>) -> bool {
    &&& path.len() > 0
    &&& path[0] == '/'
    &&& no_old_captures(path)
    &&& scan_ok(unescape(path), OUT, 0)
}

/// The shape token of a capture.
pub open spec fn capture_token() -> i64 {
    -1i64
}

/// The shape token of a catch-all.
pub open spec fn catch_all_token() -> i64 {
    -2i64
}

/// The shape token of a literal character: its code point.
pub open spec fn literal_token(c: char) -> i64 {
    (c as u32) as i64
}

/// The shape of the rest `u` of an unescaped path, from `inside` (0: outside
/// captures, 1: just after `{`, 2: inside a name): each literal character gives
/// its code point, each capture one capture token, each catch-all one catch-all
/// token.
pub open spec fn shape_from(u: Seq<(char, bool)>, inside: u8) -> Seq<i64>
    decreases u.len(),
{
    if u.len() == 0 {
        Seq::empty()
    } else {
        let c = u[0].0;
        let esc = u[0].1;
        let rest = u.drop_first();
        if inside == 0 {
            if c == '{' && !esc {
                shape_from(rest, 1)
            } else {
                seq![literal_token(c)] + shape_from(rest, 0)
            }
        } else if inside == 1 {
            seq![
                if c == '*' {
                    catch_all_token()
                } else {
                    capture_token()
                },
            ] + shape_from(
                rest,
                if c == '}' && !esc {
                    0
                } else {
                    2
                },
            )
        } else if c == '}' && !esc {
            shape_from(rest, 0)
        } else {
            shape_from(rest, 2)
        }
    }
}

/// The shape of a path: its literal text, with each capture and each catch-all as
/// one token.
pub open spec fn shape(path: Seq<char>) -> Seq<i64> {
    shape_from(unescape(path), 0)
}

/// Whether two shapes agree up to a point where one has a capture and the other a
/// catch-all.
pub open spec fn wildcard_clash(a: Seq<i64>, b: Seq<i64>) -> bool {
    exists|j: int|
        0 <= j < a.len() && j < b.len() && #[trigger] a.take(j) == b.take(j) && ((a[j]
            == capture_token() && b[j] == catch_all_token()) || (a[j] == catch_all_token() && b[j]
            == capture_token()))
}

/// Whether Axum's router refuses to hold the two different paths `p` and `q`
/// together: they have one shape, or a capture of one meets a catch-all of the
/// other.
pub open spec fn paths_clash(p: Seq<char>, q: Seq<char>) -> bool {
    p != q && (shape(p) == shape(q) || wildcard_clash(shape(p), shape(q)))
}

/// The (path, method) pairs of a record, as character sequences.
pub open spec fn pairs_view(v: Seq<(String, HttpMethod)>) -> Seq<(Seq<char>, HttpMethod)> {
    v.map_values(|p: (String, HttpMethod)| (p.0@, p.1))
}

/// Whether `method` at `path` can join the registered pairs: that pair is not
/// there yet, and `path` clashes with no registered path.
pub open spec fn route_fits(
    registered: Seq<(Seq<char>, HttpMethod)>,
    path: Seq<char>,
    method: HttpMethod,
) -> bool {
    forall|i: int|
        0 <= i < registered.len() ==> #[trigger] registered[i] != (path, method) && !paths_clash(
            registered[i].0,
            path,
        )
}

/// Whether two records can be joined: no pair is in both, and no path of one
/// clashes with a path of the other.
pub open spec fn records_fit(a: Seq<(Seq<char>, HttpMethod)>, b: Seq<(Seq<char>, HttpMethod)>) -> bool {
    forall|j: int| 0 <= j < b.len() ==> route_fits(a, #[trigger] b[j].0, b[j].1)
}

/// The next state of the scan (see [`step`]).
pub fn scan_step(st: u8, c: char, esc: bool, captures: u8) -> (res: Option<(u8, u8)>)
    requires
        captures <= MAX_CAPTURES,
    ensures
        res is None <==> step(st, c, esc, captures as nat) is None,
        res matches Some((next, n)) ==> step(st, c, esc, captures as nat) == Some(
            (next, n as nat),
        ) && n <= MAX_CAPTURES,
{
    if st == OUT {
        if c == '{' && !esc {
            Some((OPENED, captures))
        } else if c == '}' && !esc {
            None
        } else {
            Some((OUT, captures))
        }
    } else if st == OPENED {
        if c == '}' {
            None
        } else if c == '*' {
            Some((STAR, captures))
        } else {
            Some((IN_PARAM, captures))
        }
    } else if st == IN_PARAM {
        if c == '}' && !esc {
            if captures < MAX_CAPTURES {
                Some((AFTER_PARAM, captures + 1))
            } else {
                None
            }
        } else if c == '*' || c == '/' {
            None
        } else {
            Some((IN_PARAM, captures))
        }
    } else if st == STAR {
        if (c == '}' && !esc) || c == '*' || c == '/' {
            None
        } else {
            Some((IN_CATCH_ALL, captures))
        }
    } else if st == IN_CATCH_ALL {
        if c == '}' && !esc {
            Some((AFTER_CATCH_ALL, captures))
        } else if c == '*' || c == '/' {
            None
        } else {
            Some((IN_CATCH_ALL, captures))
        }
    } else if st == AFTER_PARAM {
        if c == '/' {
            Some((OUT, captures))
        } else {
            None
        }
    } else {
        None
    }
}

/// The characters of a path with its escaped braces read (see [`unescape`]).
pub fn unescape_chars(cs: &[char]) -> (res: Vec<(char, bool)>)
    ensures
        res@ == unescape(cs@),
{
    let n = cs.len();
    let mut res: Vec<(char, bool)> = Vec::new();
    let mut i: usize = 0;
    assert(cs@.skip(0) =~= cs@);
    assert(res@ + unescape(cs@) =~= unescape(cs@));
    while i < n
        invariant
            n == cs@.len(),
            i <= n,
            res@ + unescape(cs@.skip(i as int)) == unescape(cs@),
        decreases n - i,
    {
        let ghost rest = cs@.skip(i as int);
        assert(rest[0] == cs@[i as int]);
        if i + 1 < n && ((cs[i] == '{' && cs[i + 1] == '{') || (cs[i] == '}' && cs[i + 1] == '}')) {
            assert(rest[1] == cs@[i + 1]);
            assert(rest.skip(2) =~= cs@.skip(i + 2));
            res.push((cs[i], true));
            assert(res@ + unescape(cs@.skip(i + 2)) =~= unescape(cs@));
            i = i + 2;
        } else {
            assert(rest.skip(1) =~= cs@.skip(i + 1));
            res.push((cs[i], false));
            assert(res@ + unescape(cs@.skip(i + 1)) =~= unescape(cs@));
            i = i + 1;
        }
    }
    assert(cs@.skip(n as int) =~= Seq::<char>::empty());
    assert(res@ =~= unescape(cs@));
    res
}

/// Whether Axum's router accepts `path` (see [`route_path_ok`]).
pub fn valid_route_path(path: &str) -> (res: bool)
    ensures
        res == route_path_ok(path@),
{
    let cs = str_chars(path);
    if cs.len() == 0 || cs[0] != '/' {
        return false;
    }
    let n = cs.len();
    let mut k: usize = 0;
    while k < n - 1
        invariant
            cs@ == path@,
            n == cs@.len(),
            n >= 1,
            k <= n,
            forall|i: int|
                0 <= i < k && #[trigger] cs@[i] == '/' ==> cs@[i + 1] != ':' && cs@[i + 1] != '*',
        decreases n - k,
    {
        if cs[k] == '/' && (cs[k + 1] == ':' || cs[k + 1] == '*') {
            assert(!no_old_captures(path@));
            return false;
        }
        k = k + 1;
    }
    assert(no_old_captures(path@));
    let u = unescape_chars(cs.as_slice());
    let m = u.len();
    let mut st: u8 = OUT;
    let mut captures: u8 = 0;
    let mut i: usize = 0;
    assert(u@.skip(0) =~= u@);
    while i < m
        invariant
            u@ == unescape(path@),
            m == u@.len(),
            i <= m,
            captures <= MAX_CAPTURES,
            scan_ok(unescape(path@), OUT, 0) == scan_ok(u@.skip(i as int), st, captures as nat),
        decreases m - i,
    {
        assert(u@.skip(i as int).drop_first() =~= u@.skip(i + 1));
        assert(u@.skip(i as int)[0] == u@[i as int]);
        let (c, esc) = u[i];
        match scan_step(st, c, esc, captures) {
            Some((next, k2)) => {
                st = next;
                captures = k2;
            },
            None => {
                return false;
            },
        }
        i = i + 1;
    }
    assert(u@.skip(m as int) =~= Seq::<(char, bool)>::empty());
    st == OUT || st == AFTER_PARAM || st == AFTER_CATCH_ALL
}

/// The shape token of a literal character (see [`literal_token`]).
fn literal_token_of(c: char) -> (res: i64)
    ensures
        res == literal_token(c),
        res >= 0,
{
    (c as u32) as i64
}

/// The shape of a path (see [`shape`]).
pub fn path_shape(cs: &[char]) -> (res: Vec<i64>)
    ensures
        res@ == shape(cs@),
{
    let u = unescape_chars(cs);
    let n = u.len();
    let mut res: Vec<i64> = Vec::new();
    let mut inside: u8 = 0;
    let mut i: usize = 0;
    assert(u@.skip(0) =~= u@);
    assert(res@ + shape(cs@) =~= shape(cs@));
    while i < n
        invariant
            u@ == unescape(cs@),
            n == u@.len(),
            i <= n,
            res@ + shape_from(u@.skip(i as int), inside) == shape(cs@),
        decreases n - i,
    {
        let ghost rest = u@.skip(i as int);
        assert(rest.drop_first() =~= u@.skip(i + 1));
        assert(rest[0] == u@[i as int]);
        let (c, esc) = u[i];
        if inside == 0 {
            if c == '{' && !esc {
                inside = 1;
            } else {
                res.push(literal_token_of(c));
            }
        } else if inside == 1 {
            if c == '*' {
                res.push(-2);
            } else {
                res.push(-1);
            }
            inside = if c == '}' && !esc {
                0
            } else {
                2
            };
        } else if c == '}' && !esc {
            inside = 0;
        } else {
            inside = 2;
        }
        proof {
            assert(res@ + shape_from(u@.skip(i + 1), inside) =~= shape(cs@));
        }
        i = i + 1;
    }
    assert(u@.skip(n as int) =~= Seq::<(char, bool)>::empty());
    assert(res@ =~= shape(cs@));
    res
}

/// Whether Axum's router refuses to hold the two paths together (see
/// [`paths_clash`]).
pub fn clash(p: &str, q: &str) -> (res: bool)
    ensures
        res == paths_clash(p@, q@),
{
    let pc = str_chars(p);
    let qc = str_chars(q);
    if chars_eq(pc.as_slice(), qc.as_slice()) {
        return false;
    }
    let a = path_shape(pc.as_slice());
    let b = path_shape(qc.as_slice());
    let m = if a.len() < b.len() {
        a.len()
    } else {
        b.len()
    };
    let mut d: usize = 0;
    while d < m && a[d] == b[d]
        invariant
            m <= a@.len(),
            m <= b@.len(),
            d <= m,
            a@.take(d as int) == b@.take(d as int),
        decreases m - d,
    {
        assert(a@.take(d + 1) =~= a@.take(d as int).push(a@[d as int]));
        assert(b@.take(d + 1) =~= b@.take(d as int).push(b@[d as int]));
        d = d + 1;
    }
    if d == a.len() && d == b.len() {
        assert(a@ =~= a@.take(d as int));
        assert(b@ =~= b@.take(d as int));
        return true;
    }
    proof {
        if a@ == b@ {
            assert(d < m);
            assert(a@[d as int] == b@[d as int]);
        }
    }
    let res = d < a.len() && d < b.len() && ((a[d] == -1 && b[d] == -2) || (a[d] == -2 && b[d]
        == -1));
    proof {
        if !res {
            assert forall|j: int|
                0 <= j < a@.len() && j < b@.len() && #[trigger] a@.take(j) == b@.take(j) implies !(
                (a@[j] == capture_token() && b@[j] == catch_all_token()) || (a@[j]
                    == catch_all_token() && b@[j] == capture_token())) by {
                if (a@[j] == capture_token() && b@[j] == catch_all_token()) || (a@[j]
                    == catch_all_token() && b@[j] == capture_token()) {
                    if d < j {
                        assert(a@.take(j)[d as int] == b@.take(j)[d as int]);
                        assert(d < m);
                    }
                    if d > j {
                        assert(a@.take(d as int)[j] == b@.take(d as int)[j]);
                    }
                }
            }
        }
    }
    res
}

/// The same method, as a fresh value.
pub fn method_copy(m: &HttpMethod) -> (res: HttpMethod)
    ensures
        res == *m,
{
    match m {
        HttpMethod::Get => HttpMethod::Get,
        HttpMethod::Post => HttpMethod::Post,
        HttpMethod::Put => HttpMethod::Put,
        HttpMethod::Patch => HttpMethod::Patch,
        HttpMethod::Delete => HttpMethod::Delete,
    }
}

/// Whether `method` at `path` can join the registered pairs (see [`route_fits`]).
pub fn fits(registered: &Vec<(String, HttpMethod)>, path: &str, method: &HttpMethod) -> (res: bool)
    ensures
        res == route_fits(pairs_view(registered@), path@, *method),
{
    let ghost pv = pairs_view(registered@);
    let pc = str_chars(path);
    let n = registered.len();
    let mut i: usize = 0;
    while i < n
        invariant
            n == registered@.len(),
            pv == pairs_view(registered@),
            pc@ == path@,
            i <= n,
            forall|k: int|
                0 <= k < i ==> #[trigger] pv[k] != (path@, *method) && !paths_clash(pv[k].0, path@),
        decreases n - i,
    {
        let q = registered[i].0.as_str();
        let qc = str_chars(q);
        assert(pv[i as int] == (q@, registered@[i as int].1));
        if chars_eq(qc.as_slice(), pc.as_slice()) && registered[i].1 == *method {
            assert(pv[i as int] == (path@, *method));
            return false;
        }
        if clash(q, path) {
            return false;
        }
        i = i + 1;
    }
    true
}

} // verus!
