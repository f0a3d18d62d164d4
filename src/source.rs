use vstd::prelude::*;
use vstd::string::*;

use crate::text::{
    emitted, is_white_space, lemma_first_newline, lines_of, render_lines, spaces, trim, trim_end,
    trim_start,
};

verus! {

/// The number of spaces that one level of indentation adds.
pub const INDENT: usize = 4;

/// A text buffer that writes each line at the current indentation.
pub struct Source {
    s: String,
    indent: usize,
}

impl View for Source {
    /// The text written so far, and the current indentation in spaces.
    type V = (Seq<char>, nat);

    closed spec fn view(&self) -> (Seq<char>, nat) {
        (self.s@, self.indent as nat)
    }
}

impl Default for Source {
    fn default() -> (r: Self)
        ensures
            r@ == (Seq::<char>::empty(), 0nat),
    {
        Source::new()
    }
}

impl Source {
    /// An empty buffer at indentation zero.
    pub fn new() -> (r: Self)
        ensures
            r@ == (Seq::<char>::empty(), 0nat),
    {
        Source { s: String::new(), indent: 0 }
    }

    /// Appends each line of `src`, trimmed, at the current indentation and
    /// ended by a line feed.
    pub fn push_lines(&mut self, src: &str)
        ensures
            final(self)@ == (old(self)@.0 + emitted(src@, old(self)@.1), old(self)@.1),
    {
        let ghost goal = self.s@ + emitted(src@, self.indent as nat);
        let ghost ind = self.indent as nat;
        let n = src.unicode_len();
        let mut start: usize = 0;
        let mut i: usize = 0;
        proof {
            assert(src@.skip(0) =~= src@);
        }
        while i < n
            invariant
                n == src@.len(),
                start <= i <= n,
                forall|j: int| start <= j < i ==> src@[j] != '\n',
                self.indent == ind,
                goal == self.s@ + render_lines(lines_of(src@.skip(start as int)), ind),
            decreases n - i,
        {
            if src.get_char(i) == '\n' {
                proof {
                    let t = src@.skip(start as int);
                    let k = i - start;
                    lemma_first_newline(t, k);
                    assert(t.take(k) =~= src@.subrange(start as int, i as int));
                    assert(t.skip(k + 1) =~= src@.skip(i + 1));
                    let l = seq![t.take(k)];
                    let rest = lines_of(t.skip(k + 1));
                    assert((l + rest).drop_first() =~= rest);
                }
                let ghost before = self.s@;
                self.push_line(src, start, i);
                proof {
                    let line = spaces(ind) + trim(src@.subrange(start as int, i as int)) + "\n"@;
                    let rest = render_lines(lines_of(src@.skip(i + 1)), ind);
                    assert(before + (line + rest) =~= (before + line) + rest);
                }
                start = i + 1;
            }
            i = i + 1;
        }
        if start < n {
            proof {
                let t = src@.skip(start as int);
                lemma_first_newline(t, t.len() as int);
                assert(t =~= src@.subrange(start as int, n as int));
                assert(seq![t].drop_first() =~= Seq::<Seq<char>>::empty());
                assert(lines_of(t) == seq![t]);
                assert(render_lines(seq![t], ind) == spaces(ind) + trim(t) + "\n"@
                    + render_lines(Seq::<Seq<char>>::empty(), ind));
            }
            let ghost before = self.s@;
            self.push_line(src, start, n);
            proof {
                let line = spaces(ind) + trim(src@.subrange(start as int, n as int)) + "\n"@;
                assert(before + (line + Seq::<char>::empty()) =~= before + line);
            }
        } else {
            proof {
                assert(src@.skip(start as int) =~= Seq::<char>::empty());
                assert(lines_of(Seq::<char>::empty()) == Seq::<Seq<char>>::empty());
                assert(render_lines(Seq::<Seq<char>>::empty(), ind) == Seq::<char>::empty());
                assert(self.s@ + Seq::<char>::empty() =~= self.s@);
            }
        }
    }

    /// Appends the characters `src[a..b]`, trimmed, at the current
    /// indentation and ended by a line feed.
    fn push_line(&mut self, src: &str, a: usize, b: usize)
        requires
            a <= b <= src@.len(),
        ensures
            final(self)@ == (
                old(self)@.0 + spaces(old(self)@.1) + trim(src@.subrange(a as int, b as int))
                    + "\n"@,
                old(self)@.1,
            ),
    {
        let ghost whole = src@.subrange(a as int, b as int);
        let mut lo = a;
        while lo < b && is_white_space(src.get_char(lo))
            invariant
                a <= lo <= b <= src@.len(),
                trim_start(whole) == trim_start(src@.subrange(lo as int, b as int)),
            decreases b - lo,
        {
            proof {
                assert(src@.subrange(lo as int, b as int).drop_first() =~= src@.subrange(
                    lo + 1,
                    b as int,
                ));
            }
            lo = lo + 1;
        }
        let mut hi = b;
        while hi > lo && is_white_space(src.get_char(hi - 1))
            invariant
                a <= lo <= hi <= b <= src@.len(),
                trim(whole) == trim_end(src@.subrange(lo as int, hi as int)),
            decreases hi - lo,
        {
            proof {
                assert(src@.subrange(lo as int, hi as int).drop_last() =~= src@.subrange(
                    lo as int,
                    hi - 1,
                ));
            }
            hi = hi - 1;
        }
        self.push_indent();
        self.s.append(src.substring_char(lo, hi));
        self.newline();
    }

    fn push_indent(&mut self)
        ensures
            final(self)@ == (old(self)@.0 + spaces(old(self)@.1), old(self)@.1),
    {
        let ghost before = self.s@;
        let mut k: usize = 0;
        while k < self.indent
            invariant
                k <= self.indent,
                self.indent == old(self).indent,
                self.s@ == before + spaces(k as nat),
            decreases self.indent - k,
        {
            proof {
                reveal_strlit(" ");
            }
            self.s.append(" ");
            proof {
                assert(before + spaces(k as nat) + " "@ =~= before + spaces((k + 1) as nat));
            }
            k = k + 1;
        }
    }

    /// Adds one level of indentation.
    pub fn indent(&mut self)
        requires
            old(self)@.1 + INDENT <= usize::MAX,
        ensures
            final(self)@ == (old(self)@.0, (old(self)@.1 + INDENT) as nat),
    {
        self.indent = self.indent + INDENT;
    }

    /// Removes one level of indentation, stopping at zero.
    pub fn outdent(&mut self)
        ensures
            final(self)@ == (
                old(self)@.0,
                if old(self)@.1 >= INDENT {
                    (old(self)@.1 - INDENT) as nat
                } else {
                    0nat
                },
            ),
    {
        self.indent = self.indent.saturating_sub(INDENT);
    }

    fn newline(&mut self)
        ensures
            final(self)@ == (old(self)@.0 + "\n"@, old(self)@.1),
    {
        self.s.append("\n");
    }

    /// The text written so far.
    pub fn as_str(&self) -> (r: &str)
        ensures
            r@ == self@.0,
    {
        self.s.as_str()
    }

    /// The text written so far, as an owned string.
    pub fn into_string(self) -> (r: String)
        ensures
            r@ == self@.0,
    {
        self.s
    }

    /// Starts a fresh, empty region at indentation zero and hands back
    /// everything written before, so that it can be spliced in elsewhere.
    pub fn capture(&mut self) -> (r: Source)
        ensures
            r@ == old(self)@,
            final(self)@ == (Seq::<char>::empty(), 0nat),
    {
        let mut fresh = Source::new();
        core::mem::swap(self, &mut fresh);
        fresh
    }
}

} // verus!
