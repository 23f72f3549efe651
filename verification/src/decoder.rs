//! Timing-based Morse decoding.
//!
//! Tone and silence durations are classified against multiples of the
//! reference dot duration; completed dot/dash groups are decoded into
//! characters, which accumulate in the message buffer until an idle timeout
//! finalizes the message.

use vstd::prelude::*;
use crate::text::{is_ws, is_ws_char, norm, normalize};

verus! {

/// The value a dot/dash pattern encodes: start from 1, double for every
/// element, add one for a dash.  Each pattern gets a distinct value.
pub open spec fn sym_val(s: Seq<bool>) -> int
    decreases s.len(),
{
    if s.len() == 0 {
        1
    } else {
        2 * sym_val(s.drop_last()) + (if s.last() {
            1int
        } else {
            0int
        })
    }
}

/// A pattern value is at least 1 and below `2^(len + 1)`.
pub proof fn lemma_sym_val_bound(s: Seq<bool>)
    ensures
        1 <= sym_val(s),
        s.len() <= 6 ==> sym_val(s) < 128,
        s.len() <= 5 ==> sym_val(s) < 64,
        s.len() <= 4 ==> sym_val(s) < 32,
        s.len() <= 3 ==> sym_val(s) < 16,
        s.len() <= 2 ==> sym_val(s) < 8,
        s.len() <= 1 ==> sym_val(s) < 4,
        s.len() == 0 ==> sym_val(s) == 1,
    decreases s.len(),
{
    if s.len() > 0 {
        lemma_sym_val_bound(s.drop_last());
    }
}

/// The character a pattern value stands for in the international Morse
/// alphabet (letters and digits); `'?'` for every unassigned pattern.
pub open spec fn char_of_val(v: int) -> char {
    if v == 2 {
        'E'
    } else if v == 3 {
        'T'
    } else if v == 4 {
        'I'
    } else if v == 5 {
        'A'
    } else if v == 6 {
        'N'
    } else if v == 7 {
        'M'
    } else if v == 8 {
        'S'
    } else if v == 9 {
        'U'
    } else if v == 10 {
        'R'
    } else if v == 11 {
        'W'
    } else if v == 12 {
        'D'
    } else if v == 13 {
        'K'
    } else if v == 14 {
        'G'
    } else if v == 15 {
        'O'
    } else if v == 16 {
        'H'
    } else if v == 17 {
        'V'
    } else if v == 18 {
        'F'
    } else if v == 20 {
        'L'
    } else if v == 22 {
        'P'
    } else if v == 23 {
        'J'
    } else if v == 24 {
        'B'
    } else if v == 25 {
        'X'
    } else if v == 26 {
        'C'
    } else if v == 27 {
        'Y'
    } else if v == 28 {
        'Z'
    } else if v == 29 {
        'Q'
    } else if v == 32 {
        '5'
    } else if v == 33 {
        '4'
    } else if v == 35 {
        '3'
    } else if v == 39 {
        '2'
    } else if v == 47 {
        '1'
    } else if v == 48 {
        '6'
    } else if v == 56 {
        '7'
    } else if v == 60 {
        '8'
    } else if v == 62 {
        '9'
    } else if v == 63 {
        '0'
    } else {
        '?'
    }
}

/// The character a dot/dash pattern decodes to; `'?'` for the empty
/// pattern and for patterns longer than any assigned one.
pub open spec fn decode_sym(s: Seq<bool>) -> char {
    if s.len() == 0 || s.len() > 6 {
        '?'
    } else {
        char_of_val(sym_val(s))
    }
}

/// Decodes one dot/dash pattern (`false` a dot, `true` a dash).
pub fn decode_symbol(sym: &Vec<bool>) -> (c: char)
    ensures
        c == decode_sym(sym@),
{
    let n = sym.len();
    if n == 0 || n > 6 {
        return '?';
    }
    let mut v: u32 = 1;
    let mut i: usize = 0;
    proof {
        assert(sym@.take(0) =~= Seq::<bool>::empty());
    }
    while i < n
        invariant
            i <= n,
            n == sym@.len(),
            n <= 6,
            v == sym_val(sym@.take(i as int)),
            1 <= v < 128,
        decreases n - i,
    {
        proof {
            lemma_sym_val_bound(sym@.take(i as int + 1));
            assert(sym@.take(i as int + 1).drop_last() =~= sym@.take(i as int));
            assert(sym@.take(i as int + 1).last() == sym@[i as int]);
        }
        v = 2 * v + (if sym[i] {
            1
        } else {
            0
        });
        i = i + 1;
    }
    proof {
        assert(sym@.take(n as int) =~= sym@);
    }
    match v {
        2 => 'E',
        3 => 'T',
        4 => 'I',
        5 => 'A',
        6 => 'N',
        7 => 'M',
        8 => 'S',
        9 => 'U',
        10 => 'R',
        11 => 'W',
        12 => 'D',
        13 => 'K',
        14 => 'G',
        15 => 'O',
        16 => 'H',
        17 => 'V',
        18 => 'F',
        20 => 'L',
        22 => 'P',
        23 => 'J',
        24 => 'B',
        25 => 'X',
        26 => 'C',
        27 => 'Y',
        28 => 'Z',
        29 => 'Q',
        32 => '5',
        33 => '4',
        35 => '3',
        39 => '2',
        47 => '1',
        48 => '6',
        56 => '7',
        60 => '8',
        62 => '9',
        63 => '0',
        _ => '?',
    }
}

/// The message after the pending pattern is closed: nothing happens for an
/// empty pattern, otherwise its character is appended.
pub open spec fn committed(sym: Seq<bool>, msg: Seq<char>) -> Seq<char> {
    if sym.len() == 0 {
        msg
    } else {
        msg.push(decode_sym(sym))
    }
}

/// One signal event applied to `(symbol, message)`.
///
/// A tone interval appends a dot (`duration < 2 * dot`) or a dash.  A
/// silence interval below `2 * dot` separates elements and does nothing;
/// up to `7 * dot` it ends the character; beyond that it ends the word,
/// appending a space after the character.
pub open spec fn event_next(
    sym: Seq<bool>,
    msg: Seq<char>,
    duration: int,
    was_tone: bool,
    dot: int,
) -> (Seq<bool>, Seq<char>) {
    if was_tone {
        (sym.push(duration >= 2 * dot), msg)
    } else if duration < 2 * dot {
        (sym, msg)
    } else if duration <= 7 * dot {
        (Seq::<bool>::empty(), committed(sym, msg))
    } else {
        (
            Seq::<bool>::empty(),
            if sym.len() == 0 {
                msg
            } else {
                committed(sym, msg).push(' ')
            },
        )
    }
}

/// Whether the text ends in a whitespace character.
fn tail_is_ws(v: &Vec<char>) -> (r: bool)
    ensures
        r == (v@.len() > 0 && is_ws(v@.last())),
{
    let n = v.len();
    if n == 0 {
        false
    } else {
        is_ws_char(v[n - 1])
    }
}

/// Text with its trailing whitespace removed.
pub open spec fn trim_right(s: Seq<char>) -> Seq<char>
    decreases s.len(),
{
    if s.len() > 0 && is_ws(s.last()) {
        trim_right(s.drop_last())
    } else {
        s
    }
}

/// Trimmed text is empty or ends in non-whitespace.
pub proof fn lemma_trim_right_tail(s: Seq<char>)
    ensures
        trim_right(s).len() == 0 || !is_ws(trim_right(s).last()),
    decreases s.len(),
{
    if s.len() > 0 && is_ws(s.last()) {
        lemma_trim_right_tail(s.drop_last());
    }
}

/// Trimming trailing whitespace twice is the same as trimming it once.
pub proof fn lemma_trim_right_idempotent(s: Seq<char>)
    ensures
        trim_right(trim_right(s)) == trim_right(s),
{
    lemma_trim_right_tail(s);
}

/// One end-of-signal call applied to `(symbol, message)`: the pending
/// pattern is closed either way; `flush` additionally finalizes the word by
/// trimming trailing whitespace.
pub open spec fn end_next(sym: Seq<bool>, msg: Seq<char>, flush: bool) -> (Seq<bool>, Seq<char>) {
    (
        Seq::<bool>::empty(),
        if flush {
            trim_right(committed(sym, msg))
        } else {
            committed(sym, msg)
        },
    )
}

/// The two-call finalize protocol is order-independent and idempotent:
/// from any decoder state, closing the pattern first and flushing second
/// leaves the same message as flushing first and closing second, and a
/// further flush of a finalized state changes nothing.
pub proof fn lemma_finalize_protocol(sym: Seq<bool>, msg: Seq<char>)
    ensures
        ({
            let a = end_next(sym, msg, false);
            end_next(a.0, a.1, true)
        }) == ({
            let b = end_next(sym, msg, true);
            end_next(b.0, b.1, false)
        }),
        ({
            let b = end_next(sym, msg, true);
            end_next(b.0, b.1, true) == b
        }),
{
    lemma_trim_right_idempotent(committed(sym, msg));
}

/// Dot/dash timing state with the accumulated message text.
pub struct MorseDecoder {
    /// The reference dot duration, in milliseconds.
    pub dot_ms: u32,
    /// The dots and dashes of the character in progress.
    pub symbol: Vec<bool>,
    /// The decoded message so far.
    pub message: Vec<char>,
}

impl MorseDecoder {
    /// A fresh decoder with an empty pattern and an empty message.
    pub fn new(dot_ms: u32) -> (d: MorseDecoder)
        ensures
            d.dot_ms == dot_ms,
            d.symbol@ == Seq::<bool>::empty(),
            d.message@ == Seq::<char>::empty(),
    {
        let d = MorseDecoder { dot_ms, symbol: Vec::new(), message: Vec::new() };
        proof {
            assert(d.symbol@ =~= Seq::<bool>::empty());
            assert(d.message@ =~= Seq::<char>::empty());
        }
        d
    }

    /// Applies one signal-change event: the interval that just ended lasted
    /// `duration_ms` and had tone state `was_tone`.  `event_next` is the
    /// exact statement of the transition.
    pub fn signal_event(&mut self, duration_ms: u64, was_tone: bool)
        ensures
            final(self).dot_ms == old(self).dot_ms,
            (final(self).symbol@, final(self).message@) == event_next(
                old(self).symbol@,
                old(self).message@,
                duration_ms as int,
                was_tone,
                old(self).dot_ms as int,
            ),
    {
        let dot: u64 = self.dot_ms as u64;
        if was_tone {
            let dash = duration_ms >= 2 * dot;
            self.symbol.push(dash);
        } else if duration_ms < 2 * dot {
            // an element gap inside the character: nothing completes
        } else if duration_ms <= 7 * dot {
            if self.symbol.len() > 0 {
                let c = decode_symbol(&self.symbol);
                self.message.push(c);
            }
            self.symbol = Vec::new();
        } else {
            if self.symbol.len() > 0 {
                let c = decode_symbol(&self.symbol);
                self.message.push(c);
                self.message.push(' ');
            }
            self.symbol = Vec::new();
        }
        proof {
            assert(final(self).symbol@ =~= event_next(
                old(self).symbol@,
                old(self).message@,
                duration_ms as int,
                was_tone,
                old(self).dot_ms as int,
            ).0);
        }
    }

    /// Applies one end-of-signal call of the two-call finalize protocol;
    /// `end_next` is the exact statement of the transition.
    pub fn signal_event_end(&mut self, flush: bool)
        ensures
            final(self).dot_ms == old(self).dot_ms,
            (final(self).symbol@, final(self).message@) == end_next(
                old(self).symbol@,
                old(self).message@,
                flush,
            ),
    {
        if self.symbol.len() > 0 {
            let c = decode_symbol(&self.symbol);
            self.message.push(c);
            self.symbol = Vec::new();
        }
        proof {
            assert(self.symbol@ =~= Seq::<bool>::empty());
            assert(self.message@ == committed(old(self).symbol@, old(self).message@));
        }
        if flush {
            let ghost com = self.message@;
            let mut go: bool = tail_is_ws(&self.message);
            while go
                invariant
                    go == (self.message@.len() > 0 && is_ws(self.message@.last())),
                    self.symbol@ == Seq::<bool>::empty(),
                    self.dot_ms == old(self).dot_ms,
                    trim_right(self.message@) == trim_right(com),
                decreases self.message@.len(),
            {
                proof {
                    assert(is_ws(self.message@.last()));
                    assert(trim_right(self.message@) == trim_right(self.message@.drop_last()));
                }
                let ghost pre = self.message@;
                self.message.pop();
                proof {
                    assert(self.message@ =~= pre.drop_last());
                }
                go = tail_is_ws(&self.message);
            }
            proof {
                assert(self.message@.len() == 0 || !is_ws(self.message@.last()));
                assert(trim_right(self.message@) == self.message@);
            }
        }
    }

    /// The accumulated message with its whitespace collapsed, as exposed to
    /// rendering and logging.
    pub fn normalized_message(&self) -> (r: Vec<char>)
        ensures
            r@ == norm(self.message@),
    {
        normalize(&self.message)
    }

    /// Clears the message buffer after a finalized message was handed off;
    /// the decoder never accumulates across idle-timeout boundaries.
    pub fn clear_message(&mut self)
        ensures
            final(self).dot_ms == old(self).dot_ms,
            final(self).symbol@ == old(self).symbol@,
            final(self).message@ == Seq::<char>::empty(),
    {
        self.message = Vec::new();
        proof {
            assert(self.message@ =~= Seq::<char>::empty());
        }
    }
}

} // verus!
