//! The byte-oriented I/O channel.  Output is a plain byte sink.  Input is a
//! plain byte source with one escape: a `|` byte switches to override mode,
//! the ASCII decimal digits up to the next `|` are parsed as an unsigned
//! integer destined for register 7, and the byte after the closing `|` is the
//! byte actually delivered to the instruction.
//!
//! The channel holds the pending input and the produced output as plain
//! buffers; the surrounding program fills and drains them.

use vstd::prelude::*;

verus! {

/// The delimiter byte `|` that opens and closes an override sequence.
pub const DELIM: u8 = 124;

/// Mathematical state of a channel: the input bytes, how many of them have
/// been consumed, and the output bytes written so far.
pub ghost struct IoSt {
    pub inp: Seq<u8>,
    pub pos: int,
    pub out: Seq<u8>,
}

/// A channel: input buffer with a read cursor, and an output buffer.
pub struct IoChannel {
    pub input: Vec<u8>,
    pub pos: usize,
    pub output: Vec<u8>,
}

impl View for IoChannel {
    type V = IoSt;

    open spec fn view(&self) -> IoSt {
        IoSt { inp: self.input@, pos: self.pos as int, out: self.output@ }
    }
}

/// What one IN-instruction read finds at the cursor.
#[derive(Clone, Copy, PartialEq, Eq, Structural, Debug)]
pub enum InScan {
    /// An ordinary byte, and the cursor position after consuming it.
    Byte(u8, usize),
    /// An override: the value for register 7, the byte delivered to the
    /// destination operand, and the cursor position after both.
    Override(u16, u8, usize),
    /// The buffer ends before a complete read; nothing is consumed.
    NeedMore,
    /// An override sequence whose digits are empty, not decimal, or too
    /// large for a 16-bit register; nothing is consumed.
    Malformed,
}

pub open spec fn is_digit(b: u8) -> bool {
    48 <= b && b <= 57
}

pub open spec fn all_digits(s: Seq<u8>) -> bool {
    forall|i: int| 0 <= i < s.len() ==> is_digit(#[trigger] s[i])
}

/// The unsigned integer denoted by a string of ASCII decimal digits.
pub open spec fn dec_value(s: Seq<u8>) -> int
    decreases s.len(),
{
    if s.len() == 0 {
        0
    } else {
        dec_value(s.drop_last()) * 10 + (s.last() - 48)
    }
}

/// The first position at or after `i` holding the delimiter byte.
pub open spec fn find_delim(s: Seq<u8>, i: int) -> Option<int>
    decreases s.len() - i,
{
    if i < 0 || i >= s.len() {
        None
    } else if s[i] == DELIM {
        Some(i)
    } else {
        find_delim(s, i + 1)
    }
}

/// The input protocol: what one IN-instruction read yields at cursor `pos`,
/// and where the cursor lands.
pub open spec fn scan_in(inp: Seq<u8>, pos: int) -> InScan {
    if pos < 0 || pos >= inp.len() {
        InScan::NeedMore
    } else if inp[pos] != DELIM {
        InScan::Byte(inp[pos], (pos + 1) as usize)
    } else {
        match find_delim(inp, pos + 1) {
            None => InScan::NeedMore,
            Some(j) => {
                let digits = inp.subrange(pos + 1, j);
                if digits.len() == 0 || !all_digits(digits) || dec_value(digits) > 0xffff {
                    InScan::Malformed
                } else if j + 1 >= inp.len() {
                    InScan::NeedMore
                } else {
                    InScan::Override(dec_value(digits) as u16, inp[j + 1], (j + 2) as usize)
                }
            },
        }
    }
}

/// Appending a digit multiplies the value by ten and adds the digit.
proof fn lemma_dec_value_push(s: Seq<u8>, b: u8)
    ensures
        dec_value(s.push(b)) == dec_value(s) * 10 + (b - 48),
{
    assert(s.push(b).drop_last() =~= s);
    assert(s.push(b).last() == b);
}

/// A digit string's value is non-negative.
proof fn lemma_dec_value_nonneg(s: Seq<u8>)
    requires
        all_digits(s),
    ensures
        dec_value(s) >= 0,
    decreases s.len(),
{
    if s.len() > 0 {
        assert(all_digits(s.drop_last())) by {
            assert(forall|i: int|
                0 <= i < s.drop_last().len() ==> s.drop_last()[i] == #[trigger] s[i]);
        }
        lemma_dec_value_nonneg(s.drop_last());
    }
}

impl IoChannel {
    pub open spec fn wf(self) -> bool {
        self.pos <= self.input@.len()
    }

    /// A fresh channel over the given input bytes, nothing consumed, nothing
    /// written.
    pub fn new(input: Vec<u8>) -> (r: IoChannel)
        ensures
            r.wf(),
            r@.inp == input@,
            r@.pos == 0,
            r@.out =~= Seq::<u8>::empty(),
    {
        IoChannel { input, pos: 0, output: Vec::new() }
    }

    /// Read the channel's cursor position ahead without consuming anything.
    pub fn scan_input(&self) -> (r: InScan)
        requires
            self.wf(),
        ensures
            r == scan_in(self@.inp, self@.pos),
            match r {
                InScan::Byte(_, p2) => p2 <= self@.inp.len(),
                InScan::Override(_, _, p2) => p2 <= self@.inp.len(),
                _ => true,
            },
    {
        let n: usize = self.input.len();
        if self.pos >= n {
            return InScan::NeedMore;
        }
        let b0 = self.input[self.pos];
        if b0 != DELIM {
            return InScan::Byte(b0, self.pos + 1);
        }
        let mut j: usize = self.pos + 1;
        while j < n && self.input[j] != DELIM
            invariant
                self.wf(),
                n == self.input@.len(),
                self.pos + 1 <= j <= n,
                find_delim(self.input@, self.pos + 1) == find_delim(self.input@, j as int),
            decreases n - j,
        {
            j += 1;
        }
        if j == n {
            return InScan::NeedMore;
        }
        // self.input@[j as int] == DELIM, so the closing delimiter is at j.
        assert(find_delim(self.input@, self.pos + 1) == Some(j as int));
        let ghost digits = self.input@.subrange(self.pos + 1, j as int);
        if j == self.pos + 1 {
            return InScan::Malformed;
        }
        let mut k: usize = self.pos + 1;
        let mut ok = true;
        let mut acc: u64 = 0;
        while k < j
            invariant
                self.wf(),
                n == self.input@.len(),
                self.pos + 1 <= k <= j < n,
                digits == self.input@.subrange(self.pos + 1, j as int),
                ok <==> all_digits(self.input@.subrange(self.pos + 1, k as int)),
                acc <= 0xffff * 10 + 9,
                ok ==> ({
                    let v = dec_value(self.input@.subrange(self.pos + 1, k as int));
                    (v <= 0xffff && acc == v) || (v > 0xffff && acc > 0xffff)
                }),
            decreases j - k,
        {
            let ghost prefix = self.input@.subrange(self.pos + 1, k as int);
            let b = self.input[k];
            proof {
                assert(self.input@.subrange(self.pos + 1, k + 1) =~= prefix.push(b));
                lemma_dec_value_push(prefix, b);
                if ok {
                    lemma_dec_value_nonneg(prefix);
                }
            }
            if b < 48 || b > 57 {
                ok = false;
            } else if ok {
                if acc <= 0xffff {
                    acc = acc * 10 + ((b - 48) as u64);
                }
            }
            k += 1;
        }
        proof {
            assert(self.input@.subrange(self.pos + 1, k as int) == digits);
        }
        if !ok {
            return InScan::Malformed;
        }
        if acc > 0xffff {
            return InScan::Malformed;
        }
        if j + 1 >= n {
            return InScan::NeedMore;
        }
        InScan::Override(acc as u16, self.input[j + 1], j + 2)
    }

    /// Hand further input bytes to the channel (for example after a read
    /// came back wanting more).
    pub fn extend_input(&mut self, more: &[u8])
        requires
            old(self).wf(),
            old(self)@.inp.len() + more@.len() <= usize::MAX,
        ensures
            final(self).wf(),
            final(self)@.inp == old(self)@.inp + more@,
            final(self)@.pos == old(self)@.pos,
            final(self)@.out == old(self)@.out,
    {
        let mut i: usize = 0;
        let n = more.len();
        while i < n
            invariant
                n == more@.len(),
                i <= n,
                self.input@ == old(self)@.inp + more@.take(i as int),
                self.pos == old(self)@.pos,
                self.output@ == old(self)@.out,
                old(self)@.inp.len() + n <= usize::MAX,
            decreases n - i,
        {
            let b = more[i];
            self.input.push(b);
            proof {
                assert(self.input@ =~= old(self)@.inp + more@.take(i + 1));
            }
            i += 1;
        }
        proof {
            assert(old(self)@.inp + more@.take(n as int) =~= old(self)@.inp + more@);
        }
    }
}

} // verus!
