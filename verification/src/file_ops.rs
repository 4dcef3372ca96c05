//! The computing half of the file reader: classification of read failures
//! into three kinds, each with its own diagnostic, and splitting the bytes of
//! a text file into its lines.

use vstd::prelude::*;

verus! {

/// Why a file could not be read, classified three ways.
pub enum ReadError {
    /// The path does not exist.
    NotFound,
    /// The path exists but may not be read.
    PermissionDenied,
    /// Any other failure, with its description.
    Other(String),
}

impl ReadError {
    /// The diagnostic prefix that distinguishes this kind of failure.
    pub fn diagnostic(&self) -> (r: &'static str)
        ensures
            self is NotFound ==> r@ == "file not found"@,
            self is PermissionDenied ==> r@ == "permission denied"@,
            self is Other ==> r@ == "unknown error"@,
    {
        match self {
            ReadError::NotFound => "file not found",
            ReadError::PermissionDenied => "permission denied",
            ReadError::Other(_) => "unknown error",
        }
    }
}

/// Index of the first line-feed byte in `s`, or `s.len()` when there is none.
pub open spec fn first_nl(s: Seq<u8>) -> nat
    decreases s.len(),
{
    if s.len() == 0 {
        0
    } else if s[0] == 10u8 {
        0
    } else {
        (first_nl(s.drop_first()) + 1) as nat
    }
}

/// A line's content with a single trailing carriage return removed, as text
/// line splitting does before each line feed.
pub open spec fn strip_cr(l: Seq<u8>) -> Seq<u8> {
    if l.len() > 0 && l[l.len() - 1] == 13u8 {
        l.drop_last()
    } else {
        l
    }
}

/// The lines of a text, split at each line feed, with a carriage return
/// immediately before a line feed removed; a final line feed produces no
/// empty last line.
pub open spec fn lines_of(s: Seq<u8>) -> Seq<Seq<u8>>
    decreases s.len(),
{
    if s.len() == 0 {
        Seq::empty()
    } else {
        let i = first_nl(s) as int;
        if i >= s.len() {
            seq![s]
        } else {
            seq![strip_cr(s.subrange(0, i))] + lines_of(s.subrange(i + 1, s.len() as int))
        }
    }
}

/// An index below which no line feed occurs, and which is the length or a
/// line feed itself, is exactly `first_nl`.
proof fn lemma_first_nl_unique(s: Seq<u8>, j: int)
    requires
        0 <= j <= s.len(),
        forall|k: int| 0 <= k < j ==> s[k] != 10u8,
        j < s.len() ==> s[j] == 10u8,
    ensures
        first_nl(s) == j,
    decreases s.len(),
{
    if s.len() == 0 {
    } else if s[0] == 10u8 {
        assert(j == 0);
    } else {
        assert(j >= 1);
        let t = s.drop_first();
        assert forall|k: int| 0 <= k < j - 1 implies t[k] != 10u8 by {
            assert(t[k] == s[k + 1]);
        }
        if j - 1 < t.len() {
            assert(t[j - 1] == s[j]);
        }
        lemma_first_nl_unique(t, j - 1);
    }
}

/// Splits the bytes of a text into its lines: one entry per line, in file
/// order, line terminators removed.
pub fn split_lines(text: &[u8]) -> (r: Vec<Vec<u8>>)
    ensures
        r@.len() == lines_of(text@).len(),
        forall|i: int| 0 <= i < r@.len() ==> r@[i]@ == lines_of(text@)[i],
{
    let n: usize = text.len();
    let mut out: Vec<Vec<u8>> = Vec::new();
    let ghost mut done: Seq<Seq<u8>> = Seq::empty();
    let mut pos: usize = 0;
    proof {
        assert(text@.subrange(0, n as int) =~= text@);
        assert(lines_of(text@) =~= done + lines_of(text@.subrange(0, n as int)));
    }
    while pos < n
        invariant
            0 <= pos <= n,
            n == text@.len(),
            lines_of(text@) == done + lines_of(text@.subrange(pos as int, n as int)),
            out@.len() == done.len(),
            forall|i: int| 0 <= i < out@.len() ==> out@[i]@ == done[i],
        decreases n - pos,
    {
        let ghost rest = text@.subrange(pos as int, n as int);
        let mut e: usize = pos;
        while e < n && *vstd::slice::slice_index_get(text, e) != 10u8
            invariant
                pos <= e <= n,
                n == text@.len(),
                forall|k: int| pos <= k < e ==> text@[k] != 10u8,
            decreases n - e,
        {
            e = e + 1;
        }
        proof {
            assert forall|k: int| 0 <= k < e - pos implies rest[k] != 10u8 by {
                assert(rest[k] == text@[pos + k]);
            }
            if e < n {
                assert(rest[e - pos] == text@[e as int]);
            }
            lemma_first_nl_unique(rest, e - pos);
        }
        let line_end: usize = if e < n && e > pos && *vstd::slice::slice_index_get(
            text,
            e - 1,
        ) == 13u8 {
            e - 1
        } else {
            e
        };
        let line: Vec<u8> = vstd::slice::slice_to_vec(
            vstd::slice::slice_subrange(text, pos, line_end),
        );
        proof {
            if e < n {
                assert(rest.subrange(0, (e - pos) as int) =~= text@.subrange(
                    pos as int,
                    e as int,
                ));
                assert(line@ =~= strip_cr(rest.subrange(0, (e - pos) as int)));
                assert(rest.subrange((e - pos) + 1, rest.len() as int) =~= text@.subrange(
                    e + 1,
                    n as int,
                ));
                assert(lines_of(rest) == seq![line@] + lines_of(
                    text@.subrange(e + 1, n as int),
                ));
                assert(done + lines_of(rest) =~= done.push(line@) + lines_of(
                    text@.subrange(e + 1, n as int),
                ));
            } else {
                assert(rest.len() > 0);
                assert(line@ =~= rest);
                assert(lines_of(rest) == seq![rest]);
                assert(done + lines_of(rest) =~= done.push(line@) + lines_of(
                    text@.subrange(n as int, n as int),
                ));
            }
        }
        out.push(line);
        proof {
            done = done.push(line@);
        }
        pos = if e < n {
            e + 1
        } else {
            n
        };
    }
    proof {
        assert(text@.subrange(n as int, n as int) =~= Seq::<u8>::empty());
        assert(lines_of(text@) =~= done);
    }
    out
}

} // verus!
