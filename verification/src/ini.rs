//! `key=value` text files: `str::lines` and `split_once('=')`.

use vstd::prelude::*;
use crate::text::{first_index, find_char, slice_chars, trim, trim_chars, chars_of};

verus! {

/// A line that ended in `\n` loses one trailing `\r`.
pub open spec fn strip_cr(l: Seq<char>) -> Seq<char> {
    if l.len() > 0 && l.last() == '\r' { l.drop_last() } else { l }
}

/// `str::lines`: split after each `\n` (a `\r` just before it is dropped);
/// the last line needs no terminator, and no empty line follows a final `\n`.
pub open spec fn lines_of(s: Seq<char>) -> Seq<Seq<char>>
    decreases s.len(),
{
    if s.len() == 0 {
        Seq::empty()
    } else {
        let i = first_index(s, '\n');
        if i < 0 {
            seq![s]
        } else {
            proof {
                lemma_first_index_range(s, '\n');
            }
            seq![strip_cr(s.subrange(0, i))] + lines_of(s.subrange(i + 1, s.len() as int))
        }
    }
}

pub proof fn lemma_first_index_range(s: Seq<char>, c: char)
    ensures
        -1 <= first_index(s, c) < s.len(),
        first_index(s, c) >= 0 ==> s[first_index(s, c)] == c,
        forall|k: int| 0 <= k < first_index(s, c) ==> s[k] != c,
        first_index(s, c) < 0 ==> forall|k: int| 0 <= k < s.len() ==> s[k] != c,
    decreases s.len(),
{
    if s.len() > 0 && s[0] != c {
        lemma_first_index_range(s.drop_first(), c);
        let r = first_index(s.drop_first(), c);
        assert forall|k: int| 0 <= k < first_index(s, c) implies s[k] != c by {
            if k > 0 {
                assert(s[k] == s.drop_first()[k - 1]);
            }
        }
        if r < 0 {
            assert forall|k: int| 0 <= k < s.len() implies s[k] != c by {
                if k > 0 {
                    assert(s[k] == s.drop_first()[k - 1]);
                }
            }
        }
    }
}

/// `line.split_once('=')` with the key trimmed: `None` without an `=`.
pub open spec fn entry_of(line: Seq<char>) -> Option<(Seq<char>, Seq<char>)> {
    let j = first_index(line, '=');
    if j < 0 {
        None
    } else {
        Some((trim(line.subrange(0, j)), line.subrange(j + 1, line.len() as int)))
    }
}

fn strip_cr_exec(v: Vec<char>) -> (r: Vec<char>)
    ensures
        r@ == strip_cr(v@),
{
    let mut v = v;
    if v.len() > 0 && v[v.len() - 1] == '\r' {
        v.pop();
    }
    v
}

/// The lines of `txt` (see `lines_of`).
pub fn ini_lines(txt: &str) -> (ls: Vec<Vec<char>>)
    ensures
        ls@.len() == lines_of(txt@).len(),
        forall|i: int| 0 <= i < ls@.len() ==> (#[trigger] ls@[i])@ == lines_of(txt@)[i],
{
    let cs = chars_of(txt);
    let n = cs.len();
    let mut out: Vec<Vec<char>> = Vec::new();
    let mut p: usize = 0;
    let ghost all = cs@;
    assert(all.subrange(0, n as int) =~= all);
    while p < n
        invariant
            n == all.len(),
            cs@ == all,
            all == txt@,
            p <= n,
            out@.len() + lines_of(all.subrange(p as int, n as int)).len() == lines_of(all).len(),
            forall|i: int| 0 <= i < out@.len() ==> (#[trigger] out@[i])@ == lines_of(all)[i],
            forall|i: int| 0 <= i < lines_of(all.subrange(p as int, n as int)).len() ==>
                (#[trigger] lines_of(all.subrange(p as int, n as int))[i]) == lines_of(all)[out@.len() + i],
        decreases n - p,
    {
        let ghost rest = all.subrange(p as int, n as int);
        let mut q: usize = p;
        while q < n && cs[q] != '\n'
            invariant
                p <= q <= n,
                n == all.len(),
                cs@ == all,
                forall|k: int| p <= k < q ==> all[k] != '\n',
            decreases n - q,
        {
            q = q + 1;
        }
        proof {
            lemma_first_index_range(rest, '\n');
            assert forall|k: int| 0 <= k < q - p implies rest[k] != '\n' by {
                assert(rest[k] == all[p + k]);
            }
            if q < n {
                assert(rest[q - p] == '\n');
                crate::text::lemma_first_index_at(rest, '\n', q - p);
                assert(all.subrange(p as int, q as int) =~= rest.subrange(0, q - p));
                assert(all.subrange(q + 1, n as int) =~= rest.subrange(q - p + 1, rest.len() as int));
            } else {
                crate::text::lemma_first_index_at(rest, '\n', q - p);
                assert(all.subrange(p as int, q as int) =~= rest);
            }
        }
        let line = slice_chars(&cs, p, q);
        let line = if q < n { strip_cr_exec(line) } else { line };
        let ghost before = out@;
        out.push(line);
        proof {
            let rl = lines_of(rest);
            assert(rl[0] == line@);
            if q < n {
                let next = all.subrange(q + 1, n as int);
                assert(rl == seq![rl[0]] + lines_of(next));
                assert forall|i: int| 0 <= i < lines_of(next).len() implies
                    (#[trigger] lines_of(next)[i]) == lines_of(all)[out@.len() + i] by {
                    assert(lines_of(next)[i] == rl[i + 1]);
                }
            } else {
                assert(rl.len() == 1);
            }
            assert forall|i: int| 0 <= i < out@.len() implies (#[trigger] out@[i])@ == lines_of(all)[i] by {
                if i < before.len() {
                    assert(out@[i] == before[i]);
                }
            }
        }
        p = if q < n { q + 1 } else { q };
    }
    proof {
        assert(all.subrange(n as int, n as int).len() == 0);
        assert(lines_of(all.subrange(n as int, n as int)).len() == 0);
    }
    out
}

/// `line.split_once('=')`, key trimmed, value as written.
pub fn split_entry(line: &[char]) -> (r: Option<(Vec<char>, Vec<char>)>)
    ensures
        match r {
            Some((k, v)) => entry_of(line@) == Some((k@, v@)),
            None => entry_of(line@) is None,
        },
{
    match find_char(line, '=') {
        None => None,
        Some(j) => {
            let k = slice_chars(line, 0, j);
            let k = trim_chars(&k);
            let v = slice_chars(line, j + 1, line.len());
            Some((k, v))
        },
    }
}

} // verus!
