//! The relative import path from the generated client to the type bindings.
//!
//! Paths are read as on Unix: components are separated by `/`; empty components
//! and `.` are no components (as `Path::components` normalizes them), `..` is a
//! component but not a name.

use vstd::prelude::*;

use crate::snippets::{join, push_joined, push_repeated, repeat, string_seqs};
use crate::text::{char_seqs, chars_eq, chars_eq_str, chars_to_string, split_chars, split_on, str_chars};

verus! {

/// The pieces of `pieces` that are components: all but `` and `.`.
pub open spec fn components_of(pieces: Seq<Seq<char>>) -> Seq<Seq<char>>
    decreases pieces.len(),
{
    if pieces.len() == 0 {
        Seq::<Seq<char>>::empty()
    } else {
        let front = components_of(pieces.drop_last());
        let p = pieces.last();
        if p == Seq::<char>::empty() || p == "."@ {
            front
        } else {
            front.push(p)
        }
    }
}

/// The components that are names: all but `..`.
pub open spec fn names_of(comps: Seq<Seq<char>>) -> Seq<Seq<char>>
    decreases comps.len(),
{
    if comps.len() == 0 {
        Seq::<Seq<char>>::empty()
    } else {
        let front = names_of(comps.drop_last());
        if comps.last() == ".."@ {
            front
        } else {
            front.push(comps.last())
        }
    }
}

/// The components of a path.
pub open spec fn path_components(p: Seq<char>) -> Seq<Seq<char>> {
    components_of(split_on(p, '/'))
}

/// The names in the directory that holds the file at `p` (its parent; `.` if it has
/// none).
pub open spec fn parent_names(p: Seq<char>) -> Seq<Seq<char>> {
    let c = path_components(p);
    if c.len() == 0 {
        Seq::<Seq<char>>::empty()
    } else {
        names_of(c.drop_last())
    }
}

/// The number of leading names that `a` and `b` share.
pub open spec fn common_len(a: Seq<Seq<char>>, b: Seq<Seq<char>>) -> nat
    decreases a.len(),
{
    if a.len() == 0 || b.len() == 0 || a[0] != b[0] {
        0
    } else {
        1 + common_len(a.skip(1), b.skip(1))
    }
}

/// The import prefix for an output file and a bindings directory: `./` when the
/// output directory lies on the path to the bindings, else one `../` for each name
/// of the output directory past the shared ones; then the rest of the bindings
/// path, joined by `/`.
pub open spec fn relative_prefix(output_path: Seq<char>, bindings_dir: Seq<char>) -> Seq<char> {
    let out = parent_names(output_path);
    let bind = names_of(path_components(bindings_dir));
    let common = common_len(out, bind);
    let ups = (out.len() - common) as nat;
    (if ups == 0 {
        "./"@
    } else {
        repeat("../"@, ups)
    }) + join(bind.skip(common as int), "/"@)
}

pub proof fn lemma_common_len_bounds(a: Seq<Seq<char>>, b: Seq<Seq<char>>)
    ensures
        common_len(a, b) <= a.len(),
        common_len(a, b) <= b.len(),
    decreases a.len(),
{
    if !(a.len() == 0 || b.len() == 0 || a[0] != b[0]) {
        lemma_common_len_bounds(a.skip(1), b.skip(1));
    }
}

/// The components of the path `cs`.
fn components(cs: &[char]) -> (res: Vec<Vec<char>>)
    ensures
        char_seqs(res@) == path_components(cs@),
{
    let pieces = split_chars(cs, '/');
    let ghost all = char_seqs(pieces@);
    let n = pieces.len();
    let mut res: Vec<Vec<char>> = Vec::new();
    let mut i: usize = 0;
    while i < n
        invariant
            n == pieces@.len(),
            all == char_seqs(pieces@),
            all == split_on(cs@, '/'),
            i <= n,
            char_seqs(res@) == components_of(all.take(i as int)),
        decreases n - i,
    {
        assert(all.take(i + 1).drop_last() =~= all.take(i as int));
        let p = &pieces[i];
        assert(p@ == all[i as int]);
        if !(p.len() == 0 || chars_eq_str(p.as_slice(), ".")) {
            let ghost before = res@;
            res.push(p.clone());
            assert(char_seqs(res@) =~= char_seqs(before).push(p@));
        } else {
            assert(p.len() == 0 ==> p@ == Seq::<char>::empty());
        }
        i = i + 1;
    }
    assert(all.take(n as int) =~= all);
    res
}

/// The names among `comps`.
fn names(comps: &Vec<Vec<char>>, n: usize) -> (res: Vec<Vec<char>>)
    requires
        n <= comps@.len(),
    ensures
        char_seqs(res@) == names_of(char_seqs(comps@).take(n as int)),
{
    let ghost all = char_seqs(comps@);
    let mut res: Vec<Vec<char>> = Vec::new();
    let mut i: usize = 0;
    while i < n
        invariant
            n <= comps@.len(),
            all == char_seqs(comps@),
            i <= n,
            char_seqs(res@) == names_of(all.take(i as int)),
        decreases n - i,
    {
        assert(all.take(n as int).take(i + 1) =~= all.take(i + 1));
        assert(all.take(i + 1).drop_last() =~= all.take(i as int));
        let p = &comps[i];
        assert(p@ == all[i as int]);
        if !chars_eq_str(p.as_slice(), "..") {
            let ghost before = res@;
            res.push(p.clone());
            assert(char_seqs(res@) =~= char_seqs(before).push(p@));
        }
        i = i + 1;
    }
    assert(all.take(n as int).take(n as int) =~= all.take(n as int));
    res
}

/// The import prefix computed from the two paths.
pub fn relative_import_prefix(output_path: &str, bindings_dir: &str) -> (res: String)
    ensures
        res@ == relative_prefix(output_path@, bindings_dir@),
{
    let oc = str_chars(output_path);
    let out_comps = components(oc.as_slice());
    let out = if out_comps.len() == 0 {
        Vec::new()
    } else {
        names(&out_comps, out_comps.len() - 1)
    };
    proof {
        let c = path_components(output_path@);
        if c.len() > 0 {
            assert(c.take(c.len() - 1) =~= c.drop_last());
        } else {
            assert(char_seqs(out@) =~= Seq::<Seq<char>>::empty());
        }
    }
    let bc = str_chars(bindings_dir);
    let bind_comps = components(bc.as_slice());
    let bind = names(&bind_comps, bind_comps.len());
    assert(char_seqs(bind_comps@).take(bind_comps@.len() as int) =~= char_seqs(bind_comps@));
    let ghost o = char_seqs(out@);
    let ghost b = char_seqs(bind@);
    let mut common: usize = 0;
    proof {
        lemma_common_len_bounds(o, b);
        assert(o.skip(0) =~= o && b.skip(0) =~= b);
    }
    while common < out.len() && common < bind.len() && chars_eq(
        out[common].as_slice(),
        bind[common].as_slice(),
    )
        invariant
            o == char_seqs(out@),
            b == char_seqs(bind@),
            common <= out@.len(),
            common <= bind@.len(),
            common_len(o, b) == common + common_len(o.skip(common as int), b.skip(common as int)),
        decreases out@.len() - common,
    {
        assert(o.skip(common as int)[0] == out@[common as int]@);
        assert(b.skip(common as int)[0] == bind@[common as int]@);
        assert(o.skip(common as int).skip(1) =~= o.skip(common + 1));
        assert(b.skip(common as int).skip(1) =~= b.skip(common + 1));
        common = common + 1;
    }
    assert(common_len(o.skip(common as int), b.skip(common as int)) == 0);
    let ups = out.len() - common;
    let mut prefix = String::new();
    if ups == 0 {
        prefix.append("./");
    } else {
        push_repeated(&mut prefix, "../", ups);
    }
    let mut rest: Vec<String> = Vec::new();
    let mut k = common;
    while k < bind.len()
        invariant
            b == char_seqs(bind@),
            common <= k <= bind@.len(),
            string_seqs(rest@) == b.subrange(common as int, k as int),
        decreases bind@.len() - k,
    {
        let ghost before = rest@;
        let piece = chars_to_string(bind[k].as_slice());
        rest.push(piece);
        assert(string_seqs(rest@) =~= string_seqs(before).push(b[k as int]));
        assert(b.subrange(common as int, k + 1) =~= b.subrange(common as int, k as int).push(
            b[k as int],
        ));
        k = k + 1;
    }
    assert(b.subrange(common as int, bind@.len() as int) =~= b.skip(common as int));
    push_joined(&mut prefix, &rest, "/");
    prefix
}

} // verus!
