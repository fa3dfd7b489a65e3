//! The static disassembler.  Pass 1 is a linear sweep from address 0 that
//! records an instruction at every position whose word is an opcode and
//! skips one word otherwise (embedded data is tolerated; a skipped word that
//! was really the first word of an instruction can desynchronize later
//! decoding — a known limitation of the sweep, kept as such).  Pass 2 walks
//! forward from every CALL's literal target through the recorded sizes and
//! classifies the call by whether the walk reaches a RET.

use vstd::prelude::*;

use crate::image::{decode_image, words_of};
use crate::isa::{op_size, opcode_decode, decode_opcode, Instruction, InstructionSet, Type};

verus! {

/// The addresses at which the linear sweep, decoding forward from `p`,
/// records an instruction.
pub open spec fn sweep_positions(raw: Seq<u16>, p: int) -> Set<int>
    decreases raw.len() - p,
{
    if p < 0 || p >= raw.len() {
        Set::empty()
    } else {
        match opcode_decode(raw[p]) {
            Some(op) => if p + op_size(op) >= raw.len() {
                Set::empty().insert(p)
            } else {
                sweep_positions(raw, p + op_size(op)).insert(p)
            },
            None => sweep_positions(raw, p + 1),
        }
    }
}

/// A recorded entry agrees with the word it was decoded from.
pub open spec fn entry_matches(raw: Seq<u16>, e: Option<Instruction>, i: int) -> bool {
    match e {
        None => true,
        Some(ins) => opcode_decode(raw[i]) == Some(ins.instr) && ins.size == op_size(ins.instr),
    }
}

/// The control-flow walk of pass 2: from `i`, does following the recorded
/// sizes reach a RET instruction?  Leaving the recorded map fails the walk.
pub open spec fn walk_reaches_ret(imap: Seq<Option<Instruction>>, i: int) -> bool
    decreases imap.len() - i,
{
    if i < 0 || i >= imap.len() {
        false
    } else {
        match imap[i] {
            None => false,
            Some(ins) => if ins.instr == InstructionSet::RET {
                true
            } else if ins.size == 0 || i + ins.size > imap.len() {
                false
            } else {
                walk_reaches_ret(imap, i + ins.size)
            },
        }
    }
}

/// Two maps with the same entries up to classification tags.
pub open spec fn same_chain(a: Seq<Option<Instruction>>, b: Seq<Option<Instruction>>) -> bool {
    &&& a.len() == b.len()
    &&& forall|i: int|
        0 <= i < a.len() ==> {
            &&& (#[trigger] a[i]).is_some() == (#[trigger] b[i]).is_some()
            &&& (a[i].is_some() ==> a[i].unwrap().instr == b[i].unwrap().instr && a[i].unwrap().size
                == b[i].unwrap().size)
        }
}

/// The walk only reads operations and sizes, so it is the same over two
/// maps that agree on them.
proof fn lemma_walk_same(a: Seq<Option<Instruction>>, b: Seq<Option<Instruction>>, i: int)
    requires
        same_chain(a, b),
    ensures
        walk_reaches_ret(a, i) == walk_reaches_ret(b, i),
    decreases a.len() - i,
{
    if 0 <= i < a.len() {
        match a[i] {
            None => {},
            Some(ins) => {
                if ins.instr != InstructionSet::RET && ins.size != 0 && i + ins.size
                    <= a.len() {
                    lemma_walk_same(a, b, i + ins.size);
                }
            },
        }
    }
}

/// The sweep records the position it decodes at.
proof fn lemma_sweep_head(raw: Seq<u16>, p: int)
    requires
        0 <= p < raw.len(),
        opcode_decode(raw[p]).is_some(),
    ensures
        sweep_positions(raw, p).contains(p),
{
}

/// Straight-line decoding: if the sweep recorded the instruction at `a`,
/// and the word at `a` plus that instruction's size is again an opcode
/// inside the image, then the sweep recorded the next boundary exactly
/// there — re-decoding at `a + size` reconstructs the next instruction.
pub proof fn lemma_sweep_next(raw: Seq<u16>, p: int, a: int)
    requires
        sweep_positions(raw, p).contains(a),
        opcode_decode(raw[a]).is_some(),
        a + op_size(opcode_decode(raw[a]).unwrap()) < raw.len(),
        opcode_decode(raw[a + op_size(opcode_decode(raw[a]).unwrap())]).is_some(),
    ensures
        sweep_positions(raw, p).contains(a + op_size(opcode_decode(raw[a]).unwrap())),
    decreases raw.len() - p,
{
    if p < 0 || p >= raw.len() {
        // the sweep set is empty; the membership hypothesis is vacuous
    } else {
        match opcode_decode(raw[p]) {
            Some(op) => {
                if p == a {
                    lemma_sweep_head(raw, a + op_size(op));
                } else {
                    if p + op_size(op) >= raw.len() {
                        // the set is exactly {p}, so a == p, handled above
                    } else {
                        lemma_sweep_next(raw, p + op_size(op), a);
                    }
                }
            },
            None => {
                lemma_sweep_next(raw, p + 1, a);
            },
        }
    }
}

/// What pass 2 does to the entry at `a`: CALL entries with a literal,
/// in-image target become StaticCall exactly when the walk from the target
/// reaches a RET; register-resolved targets become DynamicCall at once;
/// everything else keeps its tag.  A CALL whose operand word would lie past
/// the image keeps its tag as well.
pub open spec fn classified(
    raw: Seq<u16>,
    pre: Seq<Option<Instruction>>,
    post: Seq<Option<Instruction>>,
    a: int,
) -> bool {
    match pre[a] {
        None => post[a] is None,
        Some(e) => {
            if e.instr == InstructionSet::CALL && a + 1 < raw.len() {
                let t = raw[a + 1];
                if t >= 0x8000 {
                    post[a] == Some(Instruction { typ: Type::DynamicCall, ..e })
                } else if walk_reaches_ret(pre, t as int) {
                    post[a] == Some(Instruction { typ: Type::StaticCall, ..e })
                } else {
                    post[a] == Some(e)
                }
            } else {
                post[a] == Some(e)
            }
        },
    }
}

/// A binary image and the instruction map the sweep recovered from it.
pub struct Executable {
    pub raw: Vec<u16>,
    pub imap: Vec<Option<Instruction>>,
}

impl Executable {
    pub open spec fn wf(self) -> bool {
        &&& self.imap@.len() == self.raw@.len()
        &&& forall|i: int|
            0 <= i < self.raw@.len() ==> entry_matches(self.raw@, #[trigger] self.imap@[i], i)
    }

    /// Pass 1: decode the image into words and sweep it from address 0,
    /// recording an instruction wherever the sweep lands on an opcode.
    pub fn new(bytes: &[u8]) -> (r: Executable)
        ensures
            r.wf(),
            r.raw@ == words_of(bytes@),
            forall|i: int|
                0 <= i < r.raw@.len() ==> ((#[trigger] r.imap@[i]).is_some() <==> sweep_positions(
                    r.raw@,
                    0,
                ).contains(i)),
            forall|i: int|
                0 <= i < r.raw@.len() && (#[trigger] r.imap@[i]).is_some() ==> r.imap@[
                    i
                ].unwrap().typ == Type::Unknown,
    {
        let bl = bytes.len();
        let raw = decode_image(bytes);
        let n = raw.len();
        proof {
            assert(2 * n <= bl);
        }
        let mut imap: Vec<Option<Instruction>> = Vec::new();
        let mut k: usize = 0;
        while k < n
            invariant
                k <= n,
                imap@.len() == k,
                forall|i: int| 0 <= i < k ==> (#[trigger] imap@[i]) is None,
            decreases n - k,
        {
            imap.push(None);
            k += 1;
        }
        let mut pos: usize = 0;
        while pos < n
            invariant
                n == raw@.len(),
                2 * n <= usize::MAX,
                imap@.len() == n,
                forall|i: int| 0 <= i < n ==> entry_matches(raw@, #[trigger] imap@[i], i),
                forall|i: int| 0 <= i < n && (#[trigger] imap@[i]).is_some() ==> i < pos,
                forall|i: int|
                    0 <= i < n && (#[trigger] imap@[i]).is_some() ==> imap@[i].unwrap().typ
                        == Type::Unknown,
                sweep_positions(raw@, 0) =~= Set::new(
                    |i: int| 0 <= i < n && imap@[i].is_some(),
                ).union(sweep_positions(raw@, pos as int)),
            decreases n - pos,
        {
            let ghost prev = imap@;
            let w = raw[pos];
            match decode_opcode(w) {
                Some(op) => {
                    let ins = Instruction::new(op);
                    let sz = ins.size as usize;
                    imap.set(pos, Some(ins));
                    let next = if sz >= n - pos {
                        n
                    } else {
                        pos + sz
                    };
                    proof {
                        assert(op_size(op) >= 1);
                        assert(sweep_positions(raw@, pos + sz) =~= sweep_positions(
                            raw@,
                            next as int,
                        ));
                        assert(sweep_positions(raw@, 0) =~= Set::new(
                            |i: int| 0 <= i < n && imap@[i].is_some(),
                        ).union(sweep_positions(raw@, next as int)));
                    }
                    pos = next;
                },
                None => {
                    proof {
                        assert(sweep_positions(raw@, pos as int) == sweep_positions(
                            raw@,
                            pos + 1,
                        ));
                    }
                    pos += 1;
                },
            }
        }
        Executable { raw, imap }
    }

    /// The recorded instruction at an address, if any.
    pub fn instruction_at(&self, addr: usize) -> (r: Option<Instruction>)
        ensures
            r == if addr < self.imap@.len() {
                self.imap@[addr as int]
            } else {
                None::<Instruction>
            },
    {
        if addr < self.imap.len() {
            self.imap[addr]
        } else {
            None
        }
    }

    /// Pass 2's walk: follow recorded sizes from `start_address` until a
    /// RET (true) or an address missing from the map (false).
    pub fn disass_proc(&self, start_address: usize) -> (r: bool)
        requires
            self.wf(),
        ensures
            r == walk_reaches_ret(self.imap@, start_address as int),
    {
        let n = self.imap.len();
        let mut i: usize = start_address;
        loop
            invariant
                self.wf(),
                n == self.imap@.len(),
                walk_reaches_ret(self.imap@, start_address as int) == walk_reaches_ret(
                    self.imap@,
                    i as int,
                ),
            decreases n - i,
        {
            if i >= n {
                return false;
            }
            match self.imap[i] {
                None => {
                    return false;
                },
                Some(ins) => {
                    if ins.instr == InstructionSet::RET {
                        return true;
                    }
                    let sz = ins.size as usize;
                    proof {
                        assert(op_size(ins.instr) >= 1);
                    }
                    if sz > n - i {
                        return false;
                    }
                    i += sz;
                },
            }
        }
    }

    /// Pass 2: classify every CALL site in the recorded map.  The map's
    /// operations and sizes never change; only classification tags do, as
    /// `classified` states entry by entry.
    pub fn disassemble(&mut self)
        requires
            old(self).wf(),
        ensures
            final(self).wf(),
            final(self).raw@ == old(self).raw@,
            same_chain(old(self).imap@, final(self).imap@),
            forall|a: int|
                0 <= a < old(self).imap@.len() ==> classified(
                    old(self).raw@,
                    old(self).imap@,
                    final(self).imap@,
                    a,
                ),
    {
        let n = self.imap.len();
        let ghost pre = self.imap@;
        let ghost raw0 = self.raw@;
        let mut a: usize = 0;
        while a < n
            invariant
                self.wf(),
                n == self.imap@.len(),
                pre.len() == n,
                self.raw@ == raw0,
                same_chain(pre, self.imap@),
                forall|i: int| 0 <= i < a ==> #[trigger] classified(raw0, pre, self.imap@, i),
                forall|i: int| a <= i < n ==> #[trigger] self.imap@[i] == pre[i],
            decreases n - a,
        {
            let ghost prev = self.imap@;
            match self.imap[a] {
                Some(ins) => {
                    if ins.instr == InstructionSet::CALL {
                        let rn = self.raw.len();
                        if a + 1 < rn {
                            let t = self.raw[a + 1];
                            if t >= 0x8000 {
                                let mut upd = ins;
                                upd.typ = Type::DynamicCall;
                                self.imap.set(a, Some(upd));
                            } else {
                                let ok = self.disass_proc(t as usize);
                                proof {
                                    lemma_walk_same(pre, self.imap@, t as int);
                                }
                                if ok {
                                    let mut upd = ins;
                                    upd.typ = Type::StaticCall;
                                    self.imap.set(a, Some(upd));
                                }
                            }
                        }
                    }
                },
                None => {},
            }
            proof {
                assert(classified(raw0, pre, self.imap@, a as int));
                assert forall|i: int| 0 <= i < a implies #[trigger] classified(
                    raw0,
                    pre,
                    self.imap@,
                    i,
                ) by {
                    assert(classified(raw0, pre, prev, i));
                    assert(self.imap@[i] == prev[i]);
                }
            }
            a += 1;
        }
    }
}

} // verus!
