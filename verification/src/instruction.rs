//! The three instructions of the program and their form on the wire.
//!
//! An instruction is one byte that says which operation is asked for, then
//! the operation's arguments: creation is byte 0 followed by the seed, the
//! amount wanted and the amount deposited, 8 bytes each and little-endian;
//! completion is byte 1 alone; cancellation is byte 2 alone.

use crate::layout::push_u64;
use vstd::bytes::{lemma_auto_spec_u64_to_from_le_bytes, spec_u64_to_le_bytes, u64_from_le_bytes};
use vstd::prelude::*;
use vstd::slice::slice_subrange;

verus! {

/// What a caller asks of the program.
#[derive(Clone, Copy, Debug, PartialEq, Eq)]
pub enum Instruction {
    /// Creation: open an escrow under `seed`, deposit `amount`, ask `receive`.
    Make { seed: u64, receive: u64, amount: u64 },
    /// Completion of the escrow that the accounts refer to.
    Take,
    /// Cancellation of the escrow that the accounts refer to.
    Refund,
}

/// The bytes of an instruction.
pub open spec fn wire(i: Instruction) -> Seq<u8> {
    match i {
        Instruction::Make { seed, receive, amount } => seq![0u8] + spec_u64_to_le_bytes(seed)
            + spec_u64_to_le_bytes(receive) + spec_u64_to_le_bytes(amount),
        Instruction::Take => seq![1u8],
        Instruction::Refund => seq![2u8],
    }
}

/// Length and first byte of an instruction's bytes, and where its arguments
/// lie.
pub proof fn lemma_wire_shape(i: Instruction)
    ensures
        match i {
            Instruction::Make { seed, receive, amount } => {
                &&& wire(i).len() == 25
                &&& wire(i)[0] == 0u8
                &&& wire(i).subrange(1, 9) == spec_u64_to_le_bytes(seed)
                &&& wire(i).subrange(9, 17) == spec_u64_to_le_bytes(receive)
                &&& wire(i).subrange(17, 25) == spec_u64_to_le_bytes(amount)
            },
            Instruction::Take => wire(i).len() == 1 && wire(i)[0] == 1u8,
            Instruction::Refund => wire(i).len() == 1 && wire(i)[0] == 2u8,
        },
{
    lemma_auto_spec_u64_to_from_le_bytes();
    match i {
        Instruction::Make { seed, receive, amount } => {
            assert(wire(i).subrange(1, 9) =~= spec_u64_to_le_bytes(seed));
            assert(wire(i).subrange(9, 17) =~= spec_u64_to_le_bytes(receive));
            assert(wire(i).subrange(17, 25) =~= spec_u64_to_le_bytes(amount));
        },
        _ => {},
    }
}

/// Two instructions with the same bytes are the same instruction.
pub proof fn law_wire_is_injective(a: Instruction, b: Instruction)
    requires
        wire(a) == wire(b),
    ensures
        a == b,
{
    lemma_wire_shape(a);
    lemma_wire_shape(b);
    lemma_auto_spec_u64_to_from_le_bytes();
}

impl Instruction {
    /// The instruction's bytes.
    pub fn encode(&self) -> (r: Vec<u8>)
        ensures
            r@ == wire(*self),
    {
        let mut out: Vec<u8> = Vec::new();
        match *self {
            Instruction::Make { seed, receive, amount } => {
                out.push(0u8);
                push_u64(&mut out, seed);
                push_u64(&mut out, receive);
                push_u64(&mut out, amount);
            },
            Instruction::Take => {
                out.push(1u8);
            },
            Instruction::Refund => {
                out.push(2u8);
            },
        }
        assert(out@ =~= wire(*self));
        out
    }

    /// Reads an instruction: the one whose bytes are `data`, or `None` where
    /// `data` is the bytes of no instruction.
    pub fn decode(data: &[u8]) -> (r: Option<Instruction>)
        ensures
            r matches Some(i) ==> wire(i) == data@,
            r is None ==> forall|i: Instruction| wire(i) != data@,
    {
        if data.len() == 25 && data[0] == 0u8 {
            let i = Instruction::Make {
                seed: u64_from_le_bytes(slice_subrange(data, 1, 9)),
                receive: u64_from_le_bytes(slice_subrange(data, 9, 17)),
                amount: u64_from_le_bytes(slice_subrange(data, 17, 25)),
            };
            proof {
                lemma_auto_spec_u64_to_from_le_bytes();
                lemma_wire_shape(i);
                assert(spec_u64_to_le_bytes(i->seed) == data@.subrange(1, 9));
                assert(spec_u64_to_le_bytes(i->receive) == data@.subrange(9, 17));
                assert(spec_u64_to_le_bytes(i->amount) == data@.subrange(17, 25));
                assert(wire(i) =~= data@);
            }
            Some(i)
        } else if data.len() == 1 && data[0] == 1u8 {
            assert(wire(Instruction::Take) =~= data@);
            Some(Instruction::Take)
        } else if data.len() == 1 && data[0] == 2u8 {
            assert(wire(Instruction::Refund) =~= data@);
            Some(Instruction::Refund)
        } else {
            proof {
                assert forall|i: Instruction| wire(i) != data@ by {
                    lemma_wire_shape(i);
                }
            }
            None
        }
    }
}

} // verus!
