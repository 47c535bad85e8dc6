//! The words of a format command line.

use vstd::prelude::*;

use crate::snippets::string_seqs;
use crate::text::{chars_to_string, is_whitespace, is_ws, str_chars};

verus! {

/// The pieces of `s` between whitespace characters (empty pieces included).
pub open spec fn ws_pieces(s: Seq<char>) -> Seq<Seq<char>>
    decreases s.len(),
{
    if s.len() == 0 {
        seq![Seq::<char>::empty()]
    } else {
        let front = ws_pieces(s.drop_last());
        if is_ws(s.last()) {
            front.push(Seq::<char>::empty())
        } else {
            front.update(front.len() - 1, front.last().push(s.last()))
        }
    }
}

/// The non-empty pieces among `pieces`.
pub open spec fn nonempty_pieces(pieces: Seq<Seq<char>>) -> Seq<Seq<char>>
    decreases pieces.len(),
{
    if pieces.len() == 0 {
        Seq::<Seq<char>>::empty()
    } else if pieces.last().len() == 0 {
        nonempty_pieces(pieces.drop_last())
    } else {
        nonempty_pieces(pieces.drop_last()).push(pieces.last())
    }
}

/// The words of `s`: its maximal runs of non-whitespace characters, in order, as
/// `str::split_whitespace` yields them.
pub open spec fn words(s: Seq<char>) -> Seq<Seq<char>> {
    nonempty_pieces(ws_pieces(s))
}

proof fn lemma_ws_pieces_nonempty(s: Seq<char>)
    ensures
        ws_pieces(s).len() >= 1,
    decreases s.len(),
{
    if s.len() > 0 {
        lemma_ws_pieces_nonempty(s.drop_last());
    }
}

/// The program and arguments of a format command line; empty when the line has
/// only whitespace.
pub fn command_words(format_command: &str) -> (res: Vec<String>)
    ensures
        string_seqs(res@) == words(format_command@),
{
    let cs = str_chars(format_command);
    let n = cs.len();
    let mut done: Vec<String> = Vec::new();
    let mut cur: Vec<char> = Vec::new();
    let mut i: usize = 0;
    while i < n
        invariant
            n == cs@.len(),
            cs@ == format_command@,
            i <= n,
            ws_pieces(cs@.take(i as int)).last() == cur@,
            string_seqs(done@) == nonempty_pieces(ws_pieces(cs@.take(i as int)).drop_last()),
        decreases n - i,
    {
        proof {
            lemma_ws_pieces_nonempty(cs@.take(i as int));
            assert(cs@.take(i + 1).drop_last() =~= cs@.take(i as int));
        }
        let ghost before = ws_pieces(cs@.take(i as int));
        let c = cs[i];
        if is_whitespace(c) {
            if cur.len() > 0 {
                let ghost old_done = done@;
                let w = chars_to_string(cur.as_slice());
                done.push(w);
                assert(string_seqs(done@) =~= string_seqs(old_done).push(cur@));
            }
            assert(ws_pieces(cs@.take(i + 1)).drop_last() =~= before);
            assert(before =~= before.drop_last().push(before.last()));
            cur = Vec::new();
        } else {
            cur.push(c);
            assert(ws_pieces(cs@.take(i + 1)).drop_last() =~= before.drop_last());
        }
        i = i + 1;
    }
    assert(cs@.take(n as int) =~= cs@);
    proof {
        lemma_ws_pieces_nonempty(cs@);
        let p = ws_pieces(cs@);
        assert(p =~= p.drop_last().push(p.last()));
    }
    if cur.len() > 0 {
        let ghost old_done = done@;
        let w = chars_to_string(cur.as_slice());
        done.push(w);
        assert(string_seqs(done@) =~= string_seqs(old_done).push(cur@));
    }
    done
}

/// The program to run for a format command line and its arguments, or `None`
/// when the line has no word at all (such a line cannot be run).
pub fn command_parts(format_command: &str) -> (res: Option<(String, Vec<String>)>)
    ensures
        res is None <==> words(format_command@).len() == 0,
        res matches Some((program, args)) ==> program@ == words(format_command@)[0]
            && string_seqs(args@) == words(format_command@).drop_first(),
{
    let mut ws = command_words(format_command);
    if ws.len() == 0 {
        assert(string_seqs(ws@).len() == 0);
        return None;
    }
    let ghost all = ws@;
    assert(string_seqs(all).len() == all.len());
    let program = ws.remove(0);
    assert(string_seqs(ws@) =~= string_seqs(all).drop_first());
    Some((program, ws))
}

} // verus!
