//! Moving words of memory.

use vstd::prelude::*;
use vstd::string::StringExecFns;
use crate::address::effective_address;
use crate::mix_machine::{
    follows, ErrorKind, MachineState, MixMachine, MixMachineErr, Register, MEM_SIZE,
};
use crate::mix_operations::MoveOp;
use crate::word::{lemma_word_parts, signed_value, SIGN_BIT};

verus! {

/// Memory after `count` words have been copied from `source` on to `dest`
/// on, one word at a time and upwards: the last of them is copied when the
/// ones before it have been, so that a word the move has already written
/// is copied as written.
pub open spec fn moved(memory: Seq<u32>, source: int, dest: int, count: nat) -> Seq<u32>
    decreases count,
{
    if count == 0 {
        memory
    } else {
        let before = moved(memory, source, dest, (count - 1) as nat);
        before.update(dest + count - 1, before[source + count - 1])
    }
}

/// What a move does.  The words go from the effective address to the
/// address that `I1` holds, and `I1` is then that many words further on.
/// Nothing is moved where `I1` is below zero or where a word of the source
/// or of the destination would lie beyond the last word of memory; a move
/// that ends on the last word is carried out.
pub open spec fn move_model(s: MachineState, op: MoveOp) -> Result<MachineState, ErrorKind> {
    match effective_address(s, op.address, op.index_spec) {
        Err(kind) => Err(kind),
        Ok(source) => {
            let dest = signed_value(s.register(Register::RegI1));
            if dest < 0 || source + op.num_to_move > MEM_SIZE || dest + op.num_to_move
                > MEM_SIZE {
                Err(ErrorKind::InvalidAddress)
            } else {
                Ok(
                    MachineState {
                        memory: moved(s.memory, source as int, dest, op.num_to_move as nat),
                        ..s
                    }.with_register(Register::RegI1, (dest + op.num_to_move) as u32),
                )
            }
        },
    }
}

/// What can be said of a move cell by cell, `after` being memory after the
/// move and `before` memory before it.  Every cell outside the destination
/// is as it was.  Where the destination does not lie inside the source,
/// above its first word, each cell of the destination holds what the cell
/// of the source held.  Where the destination is the word after the
/// source, the first word of the source is spread over both.
pub open spec fn moved_cells(
    before: Seq<u32>,
    after: Seq<u32>,
    source: int,
    dest: int,
    count: nat,
) -> bool {
    &&& after.len() == before.len()
    &&& forall|j: int|
        0 <= j < before.len() && !(dest <= j < dest + count) ==> #[trigger] after[j] == before[j]
    &&& dest <= source || source + count <= dest ==> forall|j: int|
        dest <= j < dest + count ==> #[trigger] after[j] == before[j - dest + source]
    &&& dest == source + 1 ==> forall|j: int|
        source <= j <= source + count ==> #[trigger] after[j] == before[source]
}

impl MixMachine {
    /// Carries out a move.
    pub fn execute_move_op(&mut self, op: &MoveOp) -> (r: Result<(), MixMachineErr>)
        ensures
            old(self)@.wf(),
            final(self)@.wf(),
            follows(old(self)@, final(self)@, r, move_model(old(self)@, *op)),
            r is Ok ==> moved_cells(
                old(self)@.memory,
                final(self)@.memory,
                effective_address(old(self)@, op.address, op.index_spec)->Ok_0 as int,
                signed_value(old(self)@.register(Register::RegI1)),
                op.num_to_move as nat,
            ),
    {
        let source_start: u16 = match self.compute_effective_address(op.address, op.index_spec) {
            Ok(address) => address,
            Err(e) => {
                return Err(e);
            },
        };
        let place: u32 = self.register(Register::RegI1);
        proof {
            lemma_word_parts(place);
        }
        let count: u32 = op.num_to_move as u32;
        if place > SIGN_BIT || source_start as u32 + count > MEM_SIZE as u32 || place % SIGN_BIT
            + count > MEM_SIZE as u32 {
            return Err(
                MixMachineErr {
                    kind: ErrorKind::InvalidAddress,
                    message: String::from_str("Attempting to move from invalid address."),
                },
            );
        }
        let dest_start: u16 = (place % SIGN_BIT) as u16;
        let mut i: u16 = 0;
        while i < op.num_to_move
            invariant
                i <= op.num_to_move,
                source_start + op.num_to_move <= MEM_SIZE,
                dest_start + op.num_to_move <= MEM_SIZE,
                self@ == (MachineState {
                    memory: moved(
                        old(self)@.memory,
                        source_start as int,
                        dest_start as int,
                        i as nat,
                    ),
                    ..old(self)@
                }),
            decreases op.num_to_move - i,
        {
            let x: u32 = self.word_at(source_start + i);
            let _ = self.poke_memory(dest_start + i, x);
            i = i + 1;
        }
        proof {
            law_moved_cells(
                old(self)@.memory,
                source_start as int,
                dest_start as int,
                op.num_to_move as nat,
            );
        }
        let _ = self.poke_register(Register::RegI1, dest_start as u32 + count);
        Ok(())
    }
}

/// A move inside memory leaves memory as long as it was, and leaves every
/// cell outside the destination as it was.
pub proof fn lemma_moved_frame(memory: Seq<u32>, source: int, dest: int, count: nat)
    requires
        0 <= dest,
        dest + count <= memory.len(),
    ensures
        moved(memory, source, dest, count).len() == memory.len(),
        forall|i: int|
            0 <= i < memory.len() && !(dest <= i < dest + count) ==> #[trigger] moved(
                memory,
                source,
                dest,
                count,
            )[i] == memory[i],
    decreases count,
{
    if count > 0 {
        lemma_moved_frame(memory, source, dest, (count - 1) as nat);
    }
}

/// A move to a destination that does not lie inside the source, above its
/// first word, copies the words as they were before the move.
pub proof fn law_move_copies(memory: Seq<u32>, source: int, dest: int, count: nat)
    requires
        0 <= source,
        source + count <= memory.len(),
        0 <= dest,
        dest + count <= memory.len(),
        dest <= source || source + count <= dest,
    ensures
        forall|j: int|
            dest <= j < dest + count ==> #[trigger] moved(memory, source, dest, count)[j]
                == memory[j - dest + source],
    decreases count,
{
    if count > 0 {
        let fewer = (count - 1) as nat;
        law_move_copies(memory, source, dest, fewer);
        lemma_moved_frame(memory, source, dest, fewer);
        let before = moved(memory, source, dest, fewer);
        assert(before[source + fewer] == memory[source + fewer]);
        assert forall|j: int| dest <= j < dest + count implies #[trigger] moved(
            memory,
            source,
            dest,
            count,
        )[j] == memory[j - dest + source] by {
            if j < dest + fewer {
                assert(before[j] == memory[j - dest + source]);
            }
        }
    }
}

/// A move to the word after its source spreads the first word of the source
/// over the source and the destination.
pub proof fn law_move_forward_fills(memory: Seq<u32>, source: int, count: nat)
    requires
        0 <= source,
        source + 1 + count <= memory.len(),
    ensures
        forall|j: int|
            source <= j <= source + count ==> #[trigger] moved(memory, source, source + 1, count)[j]
                == memory[source],
    decreases count,
{
    if count > 0 {
        let fewer = (count - 1) as nat;
        law_move_forward_fills(memory, source, fewer);
        lemma_moved_frame(memory, source, source + 1, fewer);
        let before = moved(memory, source, source + 1, fewer);
        assert(before[source + fewer] == memory[source]);
        assert forall|j: int| source <= j <= source + count implies #[trigger] moved(
            memory,
            source,
            source + 1,
            count,
        )[j] == memory[source] by {
            if j <= source + fewer {
                assert(before[j] == memory[source]);
            }
        }
    }
}

/// A move inside memory does to the cells what `moved_cells` says.
pub proof fn law_moved_cells(memory: Seq<u32>, source: int, dest: int, count: nat)
    requires
        0 <= source,
        source + count <= memory.len(),
        0 <= dest,
        dest + count <= memory.len(),
    ensures
        moved_cells(memory, moved(memory, source, dest, count), source, dest, count),
{
    lemma_moved_frame(memory, source, dest, count);
    if dest <= source || source + count <= dest {
        law_move_copies(memory, source, dest, count);
    }
    if dest == source + 1 {
        law_move_forward_fills(memory, source, count);
    }
}

} // verus!
