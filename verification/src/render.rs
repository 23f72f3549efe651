//! Diff-based terminal rendering of the decoded message.
//!
//! While a message accumulates, only the newly appended characters are
//! echoed.  On finalization, if the finalized text differs from what was
//! echoed, the stale lines are cleared (counting wrapped lines against the
//! terminal width) and the finalized text replaces them.

use vstd::prelude::*;

verus! {

/// The terminal width assumed when none is available.
pub const DEFAULT_WIDTH: usize = 80;

/// `ceil(n / w)` for a non-negative `n` and a positive `w`.
pub open spec fn ceil_div(n: int, w: int) -> int {
    if n == 0 {
        0
    } else {
        (n - 1) / w + 1
    }
}

/// Wrapped line count of `s` continued from a logical line that already
/// holds `cur` characters: each `'\n'` closes a logical line, and a logical
/// line of `n` characters occupies `ceil(n / w)` terminal rows.
pub open spec fn wrapped_from(s: Seq<char>, cur: int, w: int) -> int
    decreases s.len(),
{
    if s.len() == 0 {
        ceil_div(cur, w)
    } else if s[0] == '\n' {
        ceil_div(cur, w) + wrapped_from(s.drop_first(), 0, w)
    } else {
        wrapped_from(s.drop_first(), cur + 1, w)
    }
}

/// The number of terminal rows `s` occupies at width `w`.
pub open spec fn wrapped_lines(s: Seq<char>, w: int) -> int {
    wrapped_from(s, 0, w)
}

/// `old_text` grew into `new_text`: same prefix, strictly longer.
pub open spec fn grew(old_text: Seq<char>, new_text: Seq<char>) -> bool {
    old_text.len() < new_text.len() && new_text.take(old_text.len() as int) == old_text
}

/// A finalize redraw: clear this many rows, then print this text.
pub struct RedrawCmd {
    /// How many terminal rows of stale output to clear.
    pub lines_to_clear: usize,
    /// The finalized text to print in their place.
    pub text: Vec<char>,
}

/// What the terminal currently shows, and how wide it is.
pub struct DisplayRenderer {
    /// The text last written to the terminal.
    pub last_printed: Vec<char>,
    /// The terminal's column count.
    pub width: usize,
}

/// Whether two character buffers hold the same text.
fn text_eq(a: &Vec<char>, b: &Vec<char>) -> (r: bool)
    ensures
        r == (a@ == b@),
{
    let n = a.len();
    if n != b.len() {
        proof {
            assert(a@ != b@);
        }
        return false;
    }
    let mut i: usize = 0;
    while i < n
        invariant
            i <= n,
            n == a@.len() == b@.len(),
            forall|j: int| 0 <= j < i ==> a@[j] == b@[j],
        decreases n - i,
    {
        if a[i] != b[i] {
            return false;
        }
        i = i + 1;
    }
    proof {
        assert(a@ =~= b@);
    }
    true
}

/// Whether `b` begins with `a` and is strictly longer.
fn grew_into(a: &Vec<char>, b: &Vec<char>) -> (r: bool)
    ensures
        r == grew(a@, b@),
{
    let n = a.len();
    if n >= b.len() {
        return false;
    }
    let mut i: usize = 0;
    while i < n
        invariant
            i <= n,
            n == a@.len(),
            n < b@.len(),
            forall|j: int| 0 <= j < i ==> a@[j] == b@[j],
        decreases n - i,
    {
        if a[i] != b[i] {
            proof {
                assert(b@.take(n as int)[i as int] != a@[i as int]);
            }
            return false;
        }
        i = i + 1;
    }
    proof {
        assert(b@.take(n as int) =~= a@);
    }
    true
}

impl DisplayRenderer {
    /// The renderer invariant: a positive terminal width.
    pub open spec fn wf(self) -> bool {
        self.width >= 1
    }

    /// A fresh renderer: nothing on the terminal yet, with the given column
    /// count, or the default width when none is available or it is zero.
    pub fn new(width: Option<usize>) -> (r: DisplayRenderer)
        ensures
            r.wf(),
            r.last_printed@ == Seq::<char>::empty(),
            r.width as int == (match width {
                Some(w) => if w >= 1 {
                    w as int
                } else {
                    DEFAULT_WIDTH as int
                },
                None => DEFAULT_WIDTH as int,
            }),
    {
        let w = match width {
            Some(w) => if w >= 1 {
                w
            } else {
                DEFAULT_WIDTH
            },
            None => DEFAULT_WIDTH,
        };
        let r = DisplayRenderer { last_printed: Vec::new(), width: w };
        proof {
            assert(r.last_printed@ =~= Seq::<char>::empty());
        }
        r
    }

    /// Incremental echo: when the live message strictly extends what is on
    /// the terminal, exactly the newly appended characters come back to be
    /// printed; otherwise nothing is printed and nothing changes.
    pub fn echo(&mut self, msg: &Vec<char>) -> (out: Vec<char>)
        ensures
            final(self).width == old(self).width,
            grew(old(self).last_printed@, msg@) ==> out@ == msg@.skip(
                old(self).last_printed@.len() as int,
            ) && final(self).last_printed@ == msg@,
            !grew(old(self).last_printed@, msg@) ==> out@ == Seq::<char>::empty() && final(self).last_printed@
                == old(self).last_printed@,
    {
        if !grew_into(&self.last_printed, msg) {
            let out: Vec<char> = Vec::new();
            proof {
                assert(out@ =~= Seq::<char>::empty());
            }
            return out;
        }
        let start = self.last_printed.len();
        let n = msg.len();
        let mut out: Vec<char> = Vec::new();
        let mut i: usize = start;
        while i < n
            invariant
                start <= i <= n,
                n == msg@.len(),
                out@ =~= msg@.subrange(start as int, i as int),
            decreases n - i,
        {
            out.push(msg[i]);
            proof {
                assert(out@ =~= msg@.subrange(start as int, i as int + 1));
            }
            i = i + 1;
        }
        self.last_printed = msg.clone();
        proof {
            assert(self.last_printed@ == msg@);
            assert(out@ =~= msg@.skip(start as int));
        }
        out
    }

    /// Finalize-and-redraw: when the finalized text differs from what was
    /// last echoed, the stale wrapped lines are cleared and the finalized
    /// text is recorded as printed; when it is identical, nothing happens.
    pub fn finalize(&mut self, msg: &Vec<char>) -> (cmd: Option<RedrawCmd>)
        requires
            old(self).wf(),
        ensures
            final(self).wf(),
            final(self).width == old(self).width,
            msg@ == old(self).last_printed@ ==> cmd is None && final(self).last_printed@ == old(
                self,
            ).last_printed@,
            msg@ != old(self).last_printed@ ==> final(self).last_printed@ == msg@ && (
            cmd matches Some(c) && c.lines_to_clear == wrapped_lines(
                old(self).last_printed@,
                old(self).width as int,
            ) && c.text@ == msg@),
    {
        if text_eq(msg, &self.last_printed) {
            return None;
        }
        let lines = wrapped_line_count(&self.last_printed, self.width);
        self.last_printed = msg.clone();
        Some(RedrawCmd { lines_to_clear: lines, text: msg.clone() })
    }
}

/// `wrapped_from` never counts more rows than characters seen plus the
/// open line's length.
proof fn lemma_wrapped_from_bound(s: Seq<char>, cur: int, w: int)
    requires
        w >= 1,
        cur >= 0,
    ensures
        0 <= wrapped_from(s, cur, w) <= cur + s.len(),
    decreases s.len(),
{
    assert(0 <= ceil_div(cur, w) <= cur) by (nonlinear_arith)
        requires
            w >= 1,
            cur >= 0,
    ;
    if s.len() > 0 {
        if s[0] == '\n' {
            lemma_wrapped_from_bound(s.drop_first(), 0, w);
        } else {
            lemma_wrapped_from_bound(s.drop_first(), cur + 1, w);
        }
    }
}

/// Counts the terminal rows `s` occupies at width `width`.
pub fn wrapped_line_count(s: &Vec<char>, width: usize) -> (r: usize)
    requires
        width >= 1,
    ensures
        r == wrapped_lines(s@, width as int),
{
    let n = s.len();
    let mut acc: usize = 0;
    let mut cur: usize = 0;
    let mut i: usize = 0;
    proof {
        assert(s@.skip(0) =~= s@);
    }
    while i < n
        invariant
            i <= n,
            n == s@.len(),
            width >= 1,
            cur <= i,
            acc + cur <= i,
            acc + wrapped_from(s@.skip(i as int), cur as int, width as int) == wrapped_lines(
                s@,
                width as int,
            ),
        decreases n - i,
    {
        let ghost rem = s@.skip(i as int);
        proof {
            assert(rem[0] == s@[i as int]);
            assert(rem.drop_first() =~= s@.skip(i as int + 1));
            lemma_wrapped_from_bound(rem, cur as int, width as int);
        }
        let c = s[i];
        if c == '\n' {
            let add: usize = if cur == 0 {
                0
            } else {
                proof {
                    assert((cur - 1) as int / width as int <= cur - 1) by (nonlinear_arith)
                        requires
                            width >= 1,
                            cur >= 1,
                    ;
                }
                (cur - 1) / width + 1
            };
            acc = acc + add;
            cur = 0;
        } else {
            cur = cur + 1;
        }
        i = i + 1;
    }
    proof {
        assert(s@.skip(n as int) =~= Seq::<char>::empty());
        lemma_wrapped_from_bound(s@.skip(n as int), cur as int, width as int);
    }
    let add: usize = if cur == 0 {
        0
    } else {
        proof {
            assert((cur - 1) as int / width as int <= cur - 1) by (nonlinear_arith)
                requires
                    width >= 1,
                    cur >= 1,
            ;
        }
        (cur - 1) / width + 1
    };
    acc + add
}

} // verus!
