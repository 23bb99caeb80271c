//! Splitting the output of a process into lines.
//!
//! A line ends at a line feed or at a carriage return. The character that
//! ends it is not part of it, and a line without characters is not a line.
//! What follows the last such character is kept until more text arrives or
//! the stream ends.

use vstd::prelude::*;
use crate::models::views;
use crate::text::chars_of;
use crate::trusted::{decode_lossy, lossy_text};

verus! {

/// `c` ends a line.
pub open spec fn is_terminator(c: char) -> bool {
    c == '\n' || c == '\r'
}

/// How many characters stand before the first one that ends a line; the
/// length of `s` where none does.
pub open spec fn first_break(s: Seq<char>) -> int
    decreases s.len(),
{
    if s.len() == 0 || is_terminator(s[0]) {
        0
    } else {
        1 + first_break(s.drop_first())
    }
}

/// The lines of `s` that are ended, in order.
pub open spec fn complete_lines(s: Seq<char>) -> Seq<Seq<char>>
    decreases s.len(),
{
    let p = first_break(s);
    if p < 0 || p >= s.len() {
        Seq::empty()
    } else if p == 0 {
        complete_lines(s.skip(1))
    } else {
        seq![s.take(p)] + complete_lines(s.skip(p + 1))
    }
}

/// What follows the last character of `s` that ends a line; all of `s` where
/// none does.
pub open spec fn remainder(s: Seq<char>) -> Seq<char>
    decreases s.len(),
{
    let p = first_break(s);
    if p < 0 || p >= s.len() {
        s
    } else {
        remainder(s.skip(p + 1))
    }
}

/// The lines of a stream that has ended with the text `s`: those that are
/// ended, and what follows them where that is not empty.
pub open spec fn all_lines(s: Seq<char>) -> Seq<Seq<char>> {
    if remainder(s).len() > 0 {
        complete_lines(s).push(remainder(s))
    } else {
        complete_lines(s)
    }
}

/// No character of `s` ends a line.
pub open spec fn unbroken(s: Seq<char>) -> bool {
    forall|i: int| 0 <= i < s.len() ==> !is_terminator(#[trigger] s[i])
}

/// The first break of `s` is at `k` where no character before `k` ends a
/// line and the one at `k` does, or `s` ends there.
pub proof fn lemma_first_break(s: Seq<char>, k: int)
    requires
        0 <= k <= s.len(),
        unbroken(s.take(k)),
        k < s.len() ==> is_terminator(s[k]),
    ensures
        first_break(s) == k,
    decreases k,
{
    if k > 0 {
        assert(s.take(k)[0] == s[0]);
        let rest = s.drop_first();
        assert forall|i: int| 0 <= i < rest.take(k - 1).len() implies !is_terminator(
            #[trigger] rest.take(k - 1)[i],
        ) by {
            assert(rest.take(k - 1)[i] == s.take(k)[i + 1]);
        }
        lemma_first_break(rest, k - 1);
    }
}

/// The first break of `s` is within `s` or at its end, no character before it
/// ends a line, and the one at it does.
pub proof fn lemma_first_break_found(s: Seq<char>)
    ensures
        0 <= first_break(s) <= s.len(),
        unbroken(s.take(first_break(s))),
        first_break(s) < s.len() ==> is_terminator(s[first_break(s)]),
    decreases s.len(),
{
    if s.len() == 0 || is_terminator(s[0]) {
    } else {
        let rest = s.drop_first();
        lemma_first_break_found(rest);
        let p = first_break(s);
        assert forall|i: int| 0 <= i < s.take(p).len() implies !is_terminator(
            #[trigger] s.take(p)[i],
        ) by {
            if i > 0 {
                assert(s.take(p)[i] == rest.take(p - 1)[i - 1]);
            }
        }
    }
}

/// No line is empty, no line holds a character that ends a line, and
/// neither does what is kept after them.
pub proof fn lemma_lines_clean(s: Seq<char>)
    ensures
        forall|i: int|
            0 <= i < complete_lines(s).len() ==> (#[trigger] complete_lines(s)[i]).len() > 0
                && unbroken(complete_lines(s)[i]),
        unbroken(remainder(s)),
    decreases s.len(),
{
    let p = first_break(s);
    lemma_first_break_found(s);
    if p < s.len() {
        lemma_lines_clean(s.skip(p + 1));
        if p > 0 {
            let rest = complete_lines(s.skip(p + 1));
            let lines = complete_lines(s);
            assert forall|i: int| 0 <= i < lines.len() implies (#[trigger] lines[i]).len() > 0
                && unbroken(lines[i]) by {
                if i > 0 {
                    assert(lines[i] == rest[i - 1]);
                }
            }
        } else {
            assert(s.skip(p + 1) == s.skip(1));
        }
    } else {
        assert(s.take(p) =~= s);
    }
}

/// Text that arrives in two pieces gives the lines that it gives as a whole:
/// the lines of the first piece, then the lines of what was kept of it
/// followed by the second piece.
pub proof fn lemma_lines_in_pieces(a: Seq<char>, b: Seq<char>)
    ensures
        complete_lines(a + b) == complete_lines(a) + complete_lines(remainder(a) + b),
        remainder(a + b) == remainder(remainder(a) + b),
    decreases a.len(),
{
    let p = first_break(a);
    lemma_first_break_found(a);
    if p < a.len() {
        assert((a + b).take(p) =~= a.take(p));
        lemma_first_break(a + b, p);
        assert((a + b).skip(p + 1) =~= a.skip(p + 1) + b);
        lemma_lines_in_pieces(a.skip(p + 1), b);
        if p == 0 {
            assert(a.skip(p + 1) == a.skip(1));
            assert((a + b).skip(p + 1) == (a + b).skip(1));
        } else {
            assert(seq![a.take(p)] + (complete_lines(a.skip(p + 1)) + complete_lines(
                remainder(a.skip(p + 1)) + b,
            )) =~= (seq![a.take(p)] + complete_lines(a.skip(p + 1))) + complete_lines(
                remainder(a.skip(p + 1)) + b,
            ));
        }
    } else {
        assert(complete_lines(a) + complete_lines(a + b) =~= complete_lines(a + b));
    }
}

/// The pieces of a text, one after the other.
pub open spec fn joined(pieces: Seq<Seq<char>>) -> Seq<char>
    decreases pieces.len(),
{
    if pieces.len() == 0 {
        Seq::empty()
    } else {
        pieces[0] + joined(pieces.drop_first())
    }
}

/// The lines that a buffer which keeps `kept` hands out when it takes the
/// pieces in order and the stream then ends.
pub open spec fn handed_out(kept: Seq<char>, pieces: Seq<Seq<char>>) -> Seq<Seq<char>>
    decreases pieces.len(),
{
    if pieces.len() == 0 {
        if kept.len() > 0 {
            seq![kept]
        } else {
            Seq::empty()
        }
    } else {
        complete_lines(kept + pieces[0]) + handed_out(
            remainder(kept + pieces[0]),
            pieces.drop_first(),
        )
    }
}

/// However the text of a stream is cut into pieces, the buffer hands out the
/// lines of the whole text, each of them once and in order.
pub proof fn lemma_pieces(kept: Seq<char>, pieces: Seq<Seq<char>>)
    requires
        unbroken(kept),
    ensures
        handed_out(kept, pieces) == all_lines(kept + joined(pieces)),
    decreases pieces.len(),
{
    if pieces.len() == 0 {
        assert(kept + joined(pieces) =~= kept);
        assert(kept.take(kept.len() as int) =~= kept);
        lemma_first_break(kept, kept.len() as int);
    } else {
        let first = kept + pieces[0];
        let rest = joined(pieces.drop_first());
        lemma_lines_clean(first);
        lemma_pieces(remainder(first), pieces.drop_first());
        lemma_lines_in_pieces(first, rest);
        assert(kept + joined(pieces) =~= first + rest);
        if remainder(first + rest).len() > 0 {
            assert(complete_lines(first) + complete_lines(remainder(first) + rest).push(
                remainder(first + rest),
            ) =~= (complete_lines(first) + complete_lines(remainder(first) + rest)).push(
                remainder(first + rest),
            ));
        }
    }
}

/// The text of one stream that has arrived and belongs to no line yet.
#[derive(Debug)]
pub struct LineBuffer {
    pending: String,
}

impl View for LineBuffer {
    type V = Seq<char>;

    /// The text that is kept.
    closed spec fn view(&self) -> Seq<char> {
        self.pending@
    }
}

impl LineBuffer {
    /// A buffer that keeps nothing.
    pub fn new() -> (r: LineBuffer)
        ensures
            r@ == Seq::<char>::empty(),
    {
        LineBuffer { pending: String::new() }
    }

    /// Takes the text `chunk` and returns the lines that it ends, in order.
    /// What follows the last of them is kept.
    pub fn push_str(&mut self, chunk: &str) -> (lines: Vec<String>)
        ensures
            views(lines@) == complete_lines(old(self)@ + chunk@),
            final(self)@ == remainder(old(self)@ + chunk@),
    {
        self.pending.append(chunk);
        let ghost all = self.pending@;
        let chars = chars_of(self.pending.as_str());
        let n = chars.len();
        let mut lines: Vec<String> = Vec::new();
        let mut start: usize = 0;
        let mut i: usize = 0;
        proof {
            assert(all.skip(0) =~= all);
            assert(views(lines@) + complete_lines(all) =~= complete_lines(all));
            assert(all.subrange(0, 0) =~= Seq::<char>::empty());
        }
        while i < n
            invariant
                chars@ == all,
                self.pending@ == all,
                n == all.len(),
                start <= i <= n,
                unbroken(all.subrange(start as int, i as int)),
                complete_lines(all) == views(lines@) + complete_lines(all.skip(start as int)),
                remainder(all) == remainder(all.skip(start as int)),
            decreases n - i,
        {
            let ghost rest = all.skip(start as int);
            if chars[i] == '\n' || chars[i] == '\r' {
                proof {
                    assert(rest.take(i - start) =~= all.subrange(start as int, i as int));
                    lemma_first_break(rest, i - start);
                    assert(rest.skip(i - start + 1) =~= all.skip(i + 1));
                }
                if i > start {
                    let ghost earlier = lines@;
                    let line = self.pending.as_str().substring_char(start, i).to_owned();
                    lines.push(line);
                    assert(views(lines@) =~= views(earlier) + seq![rest.take(i - start)]);
                    assert(views(lines@) + complete_lines(all.skip(i + 1)) =~= views(earlier) + (
                    seq![rest.take(i - start)] + complete_lines(all.skip(i + 1))));
                }
                start = i + 1;
                assert(all.subrange(start as int, start as int) =~= Seq::<char>::empty());
            } else {
                assert forall|k: int| 0 <= k < all.subrange(start as int, i + 1).len() implies
                    !is_terminator(#[trigger] all.subrange(start as int, i + 1)[k]) by {
                    if k < i - start {
                        assert(all.subrange(start as int, i + 1)[k] == all.subrange(
                            start as int,
                            i as int,
                        )[k]);
                    }
                }
            }
            i += 1;
        }
        proof {
            let rest = all.skip(start as int);
            assert(rest.take(n - start) =~= all.subrange(start as int, n as int));
            lemma_first_break(rest, n - start);
            assert(views(lines@) + Seq::<Seq<char>>::empty() =~= views(lines@));
        }
        let kept = self.pending.as_str().substring_char(start, n).to_owned();
        assert(kept@ =~= all.skip(start as int));
        self.pending = kept;
        lines
    }

    /// Takes bytes as they were read from the stream, reads them as text as
    /// the standard library's lossy conversion does, and returns the lines
    /// that the text ends.
    pub fn push_bytes(&mut self, bytes: &[u8]) -> (lines: Vec<String>)
        ensures
            views(lines@) == complete_lines(old(self)@ + lossy_text(bytes@)),
            final(self)@ == remainder(old(self)@ + lossy_text(bytes@)),
    {
        let chunk = decode_lossy(bytes);
        self.push_str(chunk.as_str())
    }

    /// Ends the stream: returns what was kept as the last line, unless
    /// nothing was kept.
    pub fn finish(self) -> (last: Option<String>)
        ensures
            match last {
                Some(line) => self@.len() > 0 && line@ == self@,
                None => self@.len() == 0,
            },
    {
        if self.pending.as_str().unicode_len() == 0 {
            None
        } else {
            Some(self.pending)
        }
    }
}

} // verus!
