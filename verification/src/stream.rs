//! Decisions of the streaming response: which lines a JSON stream skips, and
//! how collected lines become a body.

use vstd::prelude::*;
use crate::text::{trim, trim_chars};
use crate::utf8::{chars_of, string_from_chars};

verus! {

/// Lines joined with `\n` between them.
pub open spec fn joined(ls: Seq<Seq<char>>) -> Seq<char>
    decreases ls.len(),
{
    if ls.len() == 0 {
        Seq::empty()
    } else if ls.len() == 1 {
        ls[0]
    } else {
        joined(ls.drop_last()) + seq!['\n'] + ls.last()
    }
}

/// The body of a collected stream: its lines joined with `\n`.
pub fn join_lines(lines: &[String]) -> (r: String)
    ensures
        r@ == joined(lines@.map_values(|l: String| l@)),
{
    let ghost ls = lines@.map_values(|l: String| l@);
    let mut out: Vec<char> = Vec::new();
    let mut i: usize = 0;
    while i < lines.len()
        invariant
            i <= lines@.len(),
            ls == lines@.map_values(|l: String| l@),
            out@ == joined(ls.subrange(0, i as int)),
        decreases lines@.len() - i,
    {
        let ghost before = out@;
        if i > 0 {
            out.push('\n');
        }
        let cs = chars_of(lines[i].as_str());
        let mut j: usize = 0;
        while j < cs.len()
            invariant
                j <= cs@.len(),
                out@ == (if i > 0 { before + seq!['\n'] } else { before }) + cs@.subrange(0, j as int),
            decreases cs@.len() - j,
        {
            out.push(cs[j]);
            j = j + 1;
            assert(out@ =~= (if i > 0 { before + seq!['\n'] } else { before }) + cs@.subrange(0, j as int));
        }
        assert(cs@.subrange(0, cs@.len() as int) =~= cs@);
        let ghost sub = ls.subrange(0, i + 1);
        assert(sub.drop_last() =~= ls.subrange(0, i as int));
        assert(sub.last() == lines@[i as int]@);
        if i == 0 {
            assert(before =~= Seq::<char>::empty());
            assert(out@ =~= joined(sub));
        } else {
            assert(out@ =~= joined(sub));
        }
        i = i + 1;
    }
    assert(ls.subrange(0, ls.len() as int) =~= ls);
    string_from_chars(out.as_slice())
}

/// Whether a streamed line is blank (only white space), which a JSON stream
/// skips.
pub fn is_blank_line(line: &str) -> (r: bool)
    ensures
        r == (trim(line@).len() == 0),
{
    let cs = chars_of(line);
    let t = trim_chars(cs.as_slice());
    t.len() == 0
}

} // verus!
