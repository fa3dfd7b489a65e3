//! The suspend/snapshot protocol: a deterministic, self-describing binary
//! encoding of the full machine state, with fields in a fixed order — IP,
//! the eight registers, the stack, the whole memory, the program size, and
//! the running flag.  Sizes and the instruction pointer are 64-bit
//! little-endian; words are 16-bit little-endian.  Saving forces the
//! running flag clear; resuming restores every field and sets it again.

use vstd::prelude::*;

use crate::image::words_of;
use crate::machine::{mwf, MState, VirtualMachine, HEADROOM};

verus! {

/// Byte `i` (0-based, little-endian) of an unsigned 64-bit value.
pub open spec fn le64_byte(v: int, i: int) -> u8 {
    if i == 0 {
        (v % 0x100) as u8
    } else if i == 1 {
        ((v / 0x100) % 0x100) as u8
    } else if i == 2 {
        ((v / 0x10000) % 0x100) as u8
    } else if i == 3 {
        ((v / 0x1000000) % 0x100) as u8
    } else if i == 4 {
        ((v / 0x100000000) % 0x100) as u8
    } else if i == 5 {
        ((v / 0x10000000000) % 0x100) as u8
    } else if i == 6 {
        ((v / 0x1000000000000) % 0x100) as u8
    } else {
        ((v / 0x100000000000000) % 0x100) as u8
    }
}

/// Eight little-endian bytes of an unsigned 64-bit value.
pub open spec fn le64(v: int) -> Seq<u8> {
    Seq::new(8, |i: int| le64_byte(v, i))
}

/// The value of eight little-endian bytes starting at `off`.
pub open spec fn u64_of(b: Seq<u8>, off: int) -> int {
    b[off] + 0x100 * b[off + 1] + 0x10000 * b[off + 2] + 0x1000000 * b[off + 3] + 0x100000000 * b[
        off + 4
    ] + 0x10000000000 * b[off + 5] + 0x1000000000000 * b[off + 6] + 0x100000000000000 * b[off + 7]
}

/// The little-endian bytes of a word sequence, low byte first.
pub open spec fn words_bytes(s: Seq<u16>) -> Seq<u8> {
    Seq::new(
        (2 * s.len()) as nat,
        |i: int| if i % 2 == 0 {
            (s[i / 2] % 0x100) as u8
        } else {
            (s[i / 2] / 0x100) as u8
        },
    )
}

/// The snapshot bytes of a machine state.
pub open spec fn spec_encode(m: MState) -> Seq<u8> {
    le64(m.ip) + words_bytes(m.reg) + le64((m.stack.len() as int)) + words_bytes(m.stack) + le64(
        (m.heap.len() as int),
    ) + words_bytes(m.heap) + le64(m.progsize) + seq![if m.running { 1u8 } else { 0u8 }]
}

/// The machine state described by snapshot bytes, if they are a snapshot:
/// the lengths must account for every byte, the running flag must be 0 or 1,
/// the sizes must fit the machine, and the memory must be exactly the
/// program plus the reserved headroom.
pub open spec fn spec_decode(b: Seq<u8>) -> Option<MState> {
    if b.len() < 32 {
        None
    } else {
        let sl = u64_of(b, 24);
        if b.len() < 40 + 2 * sl {
            None
        } else {
            let hl = u64_of(b, 32 + 2 * sl);
            if b.len() != 49 + 2 * sl + 2 * hl {
                None
            } else {
                let ip = u64_of(b, 0);
                let ps = u64_of(b, 40 + 2 * sl + 2 * hl);
                let rb = b[48 + 2 * sl + 2 * hl];
                if ip <= usize::MAX && ps <= usize::MAX && (rb == 0 || rb == 1) && hl == ps
                    + HEADROOM {
                    Some(
                        MState {
                            ip: ip,
                            reg: words_of(b.subrange(8, 24)),
                            stack: words_of(b.subrange(32, 32 + 2 * sl)),
                            heap: words_of(b.subrange(40 + 2 * sl, 40 + 2 * sl + 2 * hl)),
                            progsize: ps,
                            running: rb == 1,
                        },
                    )
                } else {
                    None
                }
            }
        }
    }
}

/// Eight little-endian bytes read back as the value they encode.
proof fn lemma_le64_roundtrip(v: u64)
    ensures
        u64_of(le64(v as int), 0) == v,
{
    assert((v as int) % 0x100 + 0x100 * (((v as int) / 0x100) % 0x100) + 0x10000 * (((v as int)
        / 0x10000) % 0x100) + 0x1000000 * (((v as int) / 0x1000000) % 0x100) + 0x100000000 * (((
    v as int) / 0x100000000) % 0x100) + 0x10000000000 * (((v as int) / 0x10000000000) % 0x100)
        + 0x1000000000000 * (((v as int) / 0x1000000000000) % 0x100) + 0x100000000000000 * (((
    v as int) / 0x100000000000000) % 0x100) == v as int) by {
        assert(v % 0x100 + 0x100 * ((v / 0x100) % 0x100) + 0x10000 * ((v / 0x10000) % 0x100)
            + 0x1000000 * ((v / 0x1000000) % 0x100) + 0x100000000 * ((v / 0x100000000) % 0x100)
            + 0x10000000000 * ((v / 0x10000000000) % 0x100) + 0x1000000000000 * ((v
            / 0x1000000000000) % 0x100) + 0x100000000000000 * ((v / 0x100000000000000) % 0x100)
            == v) by (bit_vector);
    }
}

/// Word sequences survive the trip through their little-endian bytes.
proof fn lemma_words_roundtrip(s: Seq<u16>)
    ensures
        words_of(words_bytes(s)) == s,
{
    assert(words_of(words_bytes(s)) =~= s);
}

/// Snapshot round trip: decoding an encoded state reproduces the
/// instruction pointer, registers, stack, memory, program size and running
/// flag exactly.
proof fn lemma_enc_ip(m: MState)
    ensures
        spec_encode(m).subrange(0, 8) == le64(m.ip),
{
    assert(spec_encode(m).subrange(0, 8) =~= le64(m.ip));
}

proof fn lemma_enc_reg(m: MState)
    requires
        m.reg.len() == 8,
    ensures
        spec_encode(m).subrange(8, 24) == words_bytes(m.reg),
{
    assert(spec_encode(m).subrange(8, 24) =~= words_bytes(m.reg));
}

proof fn lemma_enc_stack_len(m: MState)
    requires
        m.reg.len() == 8,
    ensures
        spec_encode(m).subrange(24, 32) == le64((m.stack.len() as int)),
{
    assert(spec_encode(m).subrange(24, 32) =~= le64((m.stack.len() as int)));
}

proof fn lemma_enc_stack(m: MState)
    requires
        m.reg.len() == 8,
    ensures
        spec_encode(m).subrange(32, 32 + 2 * (m.stack.len() as int)) == words_bytes(m.stack),
{
    assert(spec_encode(m).subrange(32, 32 + 2 * (m.stack.len() as int)) =~= words_bytes(m.stack));
}

proof fn lemma_enc_heap_len(m: MState)
    requires
        m.reg.len() == 8,
    ensures
        spec_encode(m).subrange(32 + 2 * (m.stack.len() as int), 40 + 2 * (m.stack.len() as int)) == le64(
            (m.heap.len() as int),
        ),
{
    assert(spec_encode(m).subrange(32 + 2 * (m.stack.len() as int), 40 + 2 * (m.stack.len() as int)) =~= le64(
        (m.heap.len() as int),
    ));
}

proof fn lemma_enc_heap(m: MState)
    requires
        m.reg.len() == 8,
    ensures
        spec_encode(m).subrange(
            40 + 2 * (m.stack.len() as int),
            40 + 2 * (m.stack.len() as int) + 2 * (m.heap.len() as int),
        ) == words_bytes(m.heap),
{
    assert(spec_encode(m).subrange(
        40 + 2 * (m.stack.len() as int),
        40 + 2 * (m.stack.len() as int) + 2 * (m.heap.len() as int),
    ) =~= words_bytes(m.heap));
}

proof fn lemma_enc_tail(m: MState)
    requires
        m.reg.len() == 8,
    ensures
        spec_encode(m).len() == 49 + 2 * (m.stack.len() as int) + 2 * (m.heap.len() as int),
        spec_encode(m).subrange(
            40 + 2 * (m.stack.len() as int) + 2 * (m.heap.len() as int),
            48 + 2 * (m.stack.len() as int) + 2 * (m.heap.len() as int),
        ) == le64(m.progsize),
        spec_encode(m)[48 + 2 * (m.stack.len() as int) + 2 * (m.heap.len() as int)] == (if m.running {
            1u8
        } else {
            0u8
        }),
{
    assert(spec_encode(m).subrange(
        40 + 2 * (m.stack.len() as int) + 2 * (m.heap.len() as int),
        48 + 2 * (m.stack.len() as int) + 2 * (m.heap.len() as int),
    ) =~= le64(m.progsize));
}

#[verifier::rlimit(100)]
pub proof fn lemma_snapshot_roundtrip(m: MState)
    requires
        mwf(m),
        m.ip <= usize::MAX,
        m.progsize <= usize::MAX,
        m.stack.len() <= usize::MAX,
        m.heap.len() <= u64::MAX,
    ensures
        spec_decode(spec_encode(m)) == Some(m),
{
    let e = spec_encode(m);
    let sl = (m.stack.len() as int);
    let hl = (m.heap.len() as int);
    lemma_enc_ip(m);
    lemma_enc_reg(m);
    lemma_enc_stack_len(m);
    lemma_enc_stack(m);
    lemma_enc_heap_len(m);
    lemma_enc_heap(m);
    lemma_enc_tail(m);

    lemma_u64_of_subrange(e, 0);
    lemma_u64_of_subrange(e, 24);
    lemma_u64_of_subrange(e, 32 + 2 * sl);
    lemma_u64_of_subrange(e, 40 + 2 * sl + 2 * hl);
    lemma_le64_roundtrip(m.ip as u64);
    lemma_le64_roundtrip(sl as u64);
    lemma_le64_roundtrip(hl as u64);
    lemma_le64_roundtrip(m.progsize as u64);
    lemma_words_roundtrip(m.reg);
    lemma_words_roundtrip(m.stack);
    lemma_words_roundtrip(m.heap);
    assert(u64_of(e, 24) == sl);
    assert(u64_of(e, 32 + 2 * sl) == hl);
    assert(spec_decode(e) == Some(m));
}

/// Suspend/resume is transparent: saving forces the running flag clear and
/// serializes; the machine rebuilt from that snapshot, with the flag set
/// again, is exactly the machine that was suspended — so the rest of its
/// execution is identical to never having been suspended.
pub proof fn lemma_resume_transparent(m: MState)
    requires
        mwf(m),
        m.running,
        m.ip <= usize::MAX,
        m.progsize <= usize::MAX,
        m.stack.len() <= usize::MAX,
        m.heap.len() <= u64::MAX,
    ensures
        ({
            let saved = MState { running: false, ..m };
            &&& spec_decode(spec_encode(saved)) == Some(saved)
            &&& MState { running: true, ..saved } == m
        }),
{
    lemma_snapshot_roundtrip(MState { running: false, ..m });
}

/// Reading eight bytes at `off` sees exactly the eight-byte slice there.
proof fn lemma_u64_of_subrange(b: Seq<u8>, off: int)
    requires
        0 <= off,
        off + 8 <= b.len(),
    ensures
        u64_of(b, off) == u64_of(b.subrange(off, off + 8), 0),
{
}

/// Append the eight little-endian bytes of a 64-bit value.
fn push_u64(out: &mut Vec<u8>, x: u64)
    ensures
        final(out)@ == old(out)@ + le64(x as int),
{
    out.push((x % 0x100) as u8);
    out.push(((x / 0x100) % 0x100) as u8);
    out.push(((x / 0x10000) % 0x100) as u8);
    out.push(((x / 0x1000000) % 0x100) as u8);
    out.push(((x / 0x100000000) % 0x100) as u8);
    out.push(((x / 0x10000000000) % 0x100) as u8);
    out.push(((x / 0x1000000000000) % 0x100) as u8);
    out.push(((x / 0x100000000000000) % 0x100) as u8);
    proof {
        assert(out@ =~= old(out)@ + le64(x as int));
    }
}

/// Append the little-endian bytes of a word sequence.
fn push_words(out: &mut Vec<u8>, s: &Vec<u16>)
    requires
        old(out)@.len() + 2 * s@.len() <= usize::MAX,
    ensures
        final(out)@ == old(out)@ + words_bytes(s@),
{
    let n = s.len();
    let mut i: usize = 0;
    while i < n
        invariant
            n == s@.len(),
            i <= n,
            old(out)@.len() + 2 * n <= usize::MAX,
            out@ == old(out)@ + words_bytes(s@.take(i as int)),
        decreases n - i,
    {
        let w = s[i];
        out.push((w % 0x100) as u8);
        out.push((w / 0x100) as u8);
        proof {
            assert(out@ =~= old(out)@ + words_bytes(s@.take(i + 1)));
        }
        i += 1;
    }
    proof {
        assert(s@.take(n as int) =~= s@);
    }
}

/// Read the 64-bit little-endian value at `off`.
fn read_u64(b: &[u8], off: usize) -> (x: u64)
    requires
        off + 8 <= b@.len(),
    ensures
        x as int == u64_of(b@, off as int),
{
    let n = b.len();
    (b[off] as u64) + 0x100 * (b[off + 1] as u64) + 0x10000 * (b[off + 2] as u64) + 0x1000000 * (
    b[off + 3] as u64) + 0x100000000 * (b[off + 4] as u64) + 0x10000000000 * (b[off + 5] as u64)
        + 0x1000000000000 * (b[off + 6] as u64) + 0x100000000000000 * (b[off + 7] as u64)
}

/// Read `n` little-endian words starting at `off`.
fn read_words(b: &[u8], off: usize, n: usize) -> (v: Vec<u16>)
    requires
        off + 2 * n <= b@.len(),
    ensures
        v@ == words_of(b@.subrange(off as int, off + 2 * n)),
{
    let len = b.len();
    let mut v: Vec<u16> = Vec::new();
    let mut i: usize = 0;
    while i < n
        invariant
            i <= n,
            off + 2 * n <= b@.len(),
            off + 2 * n <= usize::MAX,
            v@ == words_of(b@.subrange(off as int, off + 2 * n)).take(i as int),
        decreases n - i,
    {
        let lo = b[off + 2 * i];
        let hi = b[off + 2 * i + 1];
        let w: u16 = lo as u16 + 256 * (hi as u16);
        v.push(w);
        proof {
            assert(v@ =~= words_of(b@.subrange(off as int, off + 2 * n)).take(i + 1));
        }
        i += 1;
    }
    proof {
        assert(words_of(b@.subrange(off as int, off + 2 * n)).take(n as int) =~= words_of(
            b@.subrange(off as int, off + 2 * n),
        ));
    }
    v
}

impl VirtualMachine {
    /// The snapshot bytes of the current state.
    pub fn encode_state(&self) -> (bytes: Vec<u8>)
        requires
            self.wf(),
            self@.heap.len() * 2 + self@.stack.len() * 2 + 49 <= usize::MAX,
        ensures
            bytes@ == spec_encode(self@),
    {
        let mut out: Vec<u8> = Vec::new();
        push_u64(&mut out, self.ip as u64);
        push_words(&mut out, &self.reg);
        push_u64(&mut out, self.stack.len() as u64);
        push_words(&mut out, &self.stack);
        push_u64(&mut out, self.heap.len() as u64);
        push_words(&mut out, &self.heap);
        push_u64(&mut out, self.progsize as u64);
        out.push(if self.running { 1u8 } else { 0u8 });
        proof {
            assert(out@ =~= spec_encode(self@));
        }
        out
    }

    /// Suspend: clear the running flag, then serialize the machine state.
    /// The snapshot records the flag as cleared.
    pub fn save(&mut self) -> (bytes: Vec<u8>)
        requires
            old(self).wf(),
            old(self)@.heap.len() * 2 + old(self)@.stack.len() * 2 + 49 <= usize::MAX,
        ensures
            final(self)@ == (MState { running: false, ..old(self)@ }),
            bytes@ == spec_encode(final(self)@),
    {
        self.running = false;
        self.encode_state()
    }

    /// Resume: rebuild a machine from snapshot bytes, with the running flag
    /// set so that execution continues from the restored instruction
    /// pointer.  Bytes that are not a snapshot yield nothing.
    pub fn load(bytes: &[u8]) -> (r: Option<VirtualMachine>)
        ensures
            match spec_decode(bytes@) {
                None => r.is_none(),
                Some(m) => {
                    &&& r.is_some()
                    &&& r.unwrap()@ == (MState { running: true, ..m })
                    &&& r.unwrap().wf()
                },
            },
    {
        let n = bytes.len();
        if n < 32 {
            return None;
        }
        let ip64 = read_u64(bytes, 0);
        let sl64 = read_u64(bytes, 24);
        if (n as u128) < 40 + 2 * (sl64 as u128) {
            return None;
        }
        let sl = sl64 as usize;
        let hl64 = read_u64(bytes, 32 + 2 * sl);
        if (n as u128) != 49 + 2 * (sl64 as u128) + 2 * (hl64 as u128) {
            return None;
        }
        let hl = hl64 as usize;
        let ps64 = read_u64(bytes, 40 + 2 * sl + 2 * hl);
        let rb = bytes[48 + 2 * sl + 2 * hl];
        if ip64 > usize::MAX as u64 {
            return None;
        }
        if ps64 > usize::MAX as u64 {
            return None;
        }
        if rb > 1 {
            return None;
        }
        if (hl64 as u128) != (ps64 as u128) + (HEADROOM as u128) {
            return None;
        }
        let reg = read_words(bytes, 8, 8);
        let stack = read_words(bytes, 32, sl);
        let heap = read_words(bytes, 40 + 2 * sl, hl);
        Some(
            VirtualMachine {
                ip: ip64 as usize,
                reg,
                stack,
                heap,
                progsize: ps64 as usize,
                running: true,
            },
        )
    }
}

} // verus!
