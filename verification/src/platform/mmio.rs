//! Register accesses as values.

use vstd::prelude::*;

verus! {

/// One access to a 32-bit register, for the embedding program to perform.
#[derive(Debug, Clone, Copy, PartialEq, Eq, Structural)]
pub enum RegOp {
    /// Write `value`.
    Write { addr: u64, value: u32 },
    /// Read, clear the bits of `clear`, set the bits of `set`, and write back.
    Modify { addr: u64, clear: u32, set: u32 },
    /// Read after all earlier accesses have reached the device, and drop the
    /// value: behind a bus that posts writes, this makes sure of them.
    Readback { addr: u64 },
}

impl RegOp {
    /// The register.
    pub open spec fn spec_addr(self) -> u64 {
        match self {
            RegOp::Write { addr, .. } => addr,
            RegOp::Modify { addr, .. } => addr,
            RegOp::Readback { addr } => addr,
        }
    }

    /// What the register holds afterwards, from what it held before.
    pub open spec fn applied(self, before: u32) -> u32 {
        match self {
            RegOp::Write { value, .. } => value,
            RegOp::Modify { clear, set, .. } => (before & !clear) | set,
            RegOp::Readback { .. } => before,
        }
    }

    pub fn addr(&self) -> (addr: u64)
        ensures
            addr == self.spec_addr(),
    {
        match *self {
            RegOp::Write { addr, .. } => addr,
            RegOp::Modify { addr, .. } => addr,
            RegOp::Readback { addr } => addr,
        }
    }

    /// The register must be read first.
    pub fn reads(&self) -> (reads: bool)
        ensures
            reads == !(self is Write),
    {
        match *self {
            RegOp::Write { .. } => false,
            RegOp::Modify { .. } => true,
            RegOp::Readback { .. } => true,
        }
    }

    /// The register is written.
    pub fn writes(&self) -> (writes: bool)
        ensures
            writes == !(self is Readback),
    {
        match *self {
            RegOp::Write { .. } => true,
            RegOp::Modify { .. } => true,
            RegOp::Readback { .. } => false,
        }
    }

    /// The value to write, from the value read.
    pub fn apply(&self, before: u32) -> (after: u32)
        ensures
            after == self.applied(before),
    {
        match *self {
            RegOp::Write { value, .. } => value,
            RegOp::Modify { clear, set, .. } => (before & !clear) | set,
            RegOp::Readback { .. } => before,
        }
    }
}

/// What a register holds after accesses, from what it held before. Accesses to
/// other registers do not matter.
pub open spec fn held_after(ops: Seq<RegOp>, addr: u64, before: u32) -> u32
    decreases ops.len(),
{
    if ops.len() == 0 {
        before
    } else {
        let prior = held_after(ops.drop_last(), addr, before);
        if ops.last().spec_addr() == addr {
            ops.last().applied(prior)
        } else {
            prior
        }
    }
}

/// One access more.
pub proof fn lemma_held_push(ops: Seq<RegOp>, op: RegOp, addr: u64, before: u32)
    ensures
        held_after(ops.push(op), addr, before) == if op.spec_addr() == addr {
            op.applied(held_after(ops, addr, before))
        } else {
            held_after(ops, addr, before)
        },
{
    assert(ops.push(op).drop_last() =~= ops);
}

/// Accesses one after the other.
pub proof fn lemma_held_concat(first: Seq<RegOp>, second: Seq<RegOp>, addr: u64, before: u32)
    ensures
        held_after(first + second, addr, before) == held_after(
            second,
            addr,
            held_after(first, addr, before),
        ),
    decreases second.len(),
{
    if second.len() == 0 {
        assert(first + second =~= first);
    } else {
        assert((first + second).drop_last() =~= first + second.drop_last());
        lemma_held_concat(first, second.drop_last(), addr, before);
    }
}

/// Law: a write puts its value into its register whatever was there; a
/// modification takes its clear bits away and then puts its set bits in, bit by
/// bit.
pub proof fn law_access_by_bits(op: RegOp, before: u32, bit: u32)
    requires
        bit < 32,
    ensures
        match op {
            RegOp::Write { addr, value } => op.applied(before) == value && op.spec_addr() == addr,
            RegOp::Modify { addr, clear, set } => {
                let after = op.applied(before) & (1u32 << bit) != 0;
                &&& op.spec_addr() == addr
                &&& set & (1u32 << bit) != 0 ==> after
                &&& set & (1u32 << bit) == 0 && clear & (1u32 << bit) != 0 ==> !after
                &&& set & (1u32 << bit) == 0 && clear & (1u32 << bit) == 0 ==> (after <==> before
                    & (1u32 << bit) != 0)
            },
            RegOp::Readback { addr } => op.applied(before) == before && op.spec_addr() == addr,
        },
{
    if let RegOp::Modify { addr, clear, set } = op {
        let after = (before & !clear) | set;
        let mask = 1u32 << bit;
        assert({
            &&& set & mask != 0 ==> after & mask != 0
            &&& set & mask == 0 && clear & mask != 0 ==> after & mask == 0
            &&& set & mask == 0 && clear & mask == 0 ==> (after & mask != 0 <==> before & mask != 0)
        }) by (bit_vector)
            requires
                after == (before & !clear) | set,
                mask == 1u32 << bit,
                bit < 32,
        ;
    }
}

/// Law: a register that is not written keeps what it holds.
pub proof fn law_readback_changes_nothing(op: RegOp, before: u32)
    requires
        op is Readback,
    ensures
        op.applied(before) == before,
{
}

/// Law: a modification whose set bits are among its cleared bits leaves all
/// other bits alone and puts exactly the set bits into its field. Doing it twice
/// does no more than doing it once.
pub proof fn law_modify_is_confined(addr: u64, clear: u32, set: u32, before: u32)
    requires
        set & !clear == 0,
    ensures
        ({
            let op = RegOp::Modify { addr, clear, set };
            &&& op.applied(before) & !clear == before & !clear
            &&& op.applied(before) & clear == set
            &&& op.applied(op.applied(before)) == op.applied(before)
        }),
{
    let after = (before & !clear) | set;
    assert(after & !clear == before & !clear && after & clear == set && ((after & !clear) | set)
        == after) by (bit_vector)
        requires
            set & !clear == 0,
            after == (before & !clear) | set,
    ;
}

} // verus!
