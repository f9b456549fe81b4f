//! Every program that the generator emits is well formed.
//!
//! Blocks and operations are named by machine integers, so what is proved
//! here is proved of the programs that fit them
//! ([`representable`](crate::program::representable)), as every program in
//! memory does.
use crate::coalescer::{cell_amount, pointer_offset};
use crate::lowering::{compile, consumed, consumed_bounds, generate, step, Emission};
use crate::parser::Instruction;
use crate::program::{
    defined_before, joins_pointer, operation_well_formed, representable, terminator_well_formed,
    well_formed, BlockView, Kind, LoopFrame, Operation, Terminator, TAPE_CELLS,
};
use vstd::prelude::*;

verus! {

/// `later` has the blocks of `earlier`, each with as many operations or more.
pub open spec fn grows_to(earlier: Seq<BlockView>, later: Seq<BlockView>) -> bool {
    &&& earlier.len() <= later.len()
    &&& forall|block: int|
        0 <= block < earlier.len() ==> (#[trigger] earlier[block]).operations.len()
            <= later[block].operations.len()
}

/// The block `block` is the exit of one of the open loops `frames`.
pub open spec fn is_open_exit(frames: Seq<LoopFrame>, block: int) -> bool {
    exists|i: int| 0 <= i < frames.len() && (#[trigger] frames[i]).exit == block
}

/// What holds of the generator's output between two steps: all that makes a
/// program well formed, but that the block at the position and the exits of the
/// open loops are still to be sealed.
pub open spec fn sound(emission: Emission) -> bool {
    &&& emission.in_bounds()
    &&& emission.blocks[0].operations.len() > 0
    &&& emission.blocks[0].operations[0] == Operation::Allocate { count: TAPE_CELLS, size: 1 }
    &&& forall|i: int|
        0 <= i < emission.frames.len() ==> (#[trigger] emission.frames[i]).entry
            < emission.frames[i].exit && joins_pointer(
            emission.blocks,
            emission.frames[i].entry as int,
        )
    &&& forall|block: int, index: int|
        0 <= block < emission.blocks.len() && 0 <= index < emission.blocks[block].operations.len()
            ==> #[trigger] operation_well_formed(emission.blocks, block, index)
    &&& forall|block: int|
        0 <= block < emission.blocks.len() && block != emission.position && !is_open_exit(
            emission.frames,
            block,
        ) ==> #[trigger] terminator_well_formed(emission.blocks, block)
    &&& defined_before(
        emission.blocks,
        emission.pointer,
        Kind::Pointer,
        emission.position as int,
        emission.blocks[emission.position as int].operations.len() as int,
    )
}

/// A step keeps the indices in bounds and takes nothing away.
pub proof fn step_grows(emission: Emission, stream: Seq<Instruction>)
    requires
        emission.in_bounds(),
        stream.len() > 0,
    ensures
        step(emission, stream) matches Ok(next) ==> next.in_bounds() && grows_to(
            emission.blocks,
            next.blocks,
        ),
{
    match step(emission, stream) {
        Ok(next) => {
            if stream[0] == Instruction::CloseLoop {
                assert(emission.frames.last() == emission.frames[emission.frames.len() - 1]);
                assert forall|i: int| 0 <= i < next.frames.len() implies (
                #[trigger] next.frames[i]).exit < next.blocks.len() by {
                    assert(next.frames[i] == emission.frames[i]);
                }
            }
            if stream[0] == Instruction::StartLoop {
                assert forall|i: int| 0 <= i < next.frames.len() implies (
                #[trigger] next.frames[i]).exit < next.blocks.len() by {
                    if i < emission.frames.len() {
                        assert(next.frames[i] == emission.frames[i]);
                    }
                }
            }
        },
        Err(error) => {},
    }
}

/// Generation keeps the indices in bounds and takes nothing away.
pub proof fn generate_grows(emission: Emission, stream: Seq<Instruction>)
    requires
        emission.in_bounds(),
    ensures
        generate(emission, stream) matches Ok(last) ==> last.in_bounds() && grows_to(
            emission.blocks,
            last.blocks,
        ),
    decreases stream.len(),
{
    if stream.len() > 0 && stream[0] != Instruction::EndOfInput {
        consumed_bounds(stream);
        step_grows(emission, stream);
        match step(emission, stream) {
            Ok(next) => {
                generate_grows(next, stream.skip(consumed(stream) as int));
            },
            Err(error) => {},
        }
    }
}

/// An operation on the current pointer keeps the output sound.
proof fn emit_keeps_sound(emission: Emission, operation: Operation)
    requires
        sound(emission),
        operation_well_formed(
            emission.emit(operation).blocks,
            emission.position as int,
            emission.blocks[emission.position as int].operations.len() as int,
        ),
    ensures
        sound(emission.emit(operation)),
{
    let next = emission.emit(operation);
    assert forall|block: int, index: int|
        0 <= block < next.blocks.len() && 0 <= index
            < next.blocks[block].operations.len() implies #[trigger] operation_well_formed(
        next.blocks,
        block,
        index,
    ) by {
        if block == emission.position && index
            == emission.blocks[emission.position as int].operations.len() {
        } else {
            assert(operation_well_formed(emission.blocks, block, index));
        }
    }
    assert forall|block: int|
        0 <= block < next.blocks.len() && block != next.position && !is_open_exit(
            next.frames,
            block,
        ) implies #[trigger] terminator_well_formed(next.blocks, block) by {
        assert(terminator_well_formed(emission.blocks, block));
    }
    assert forall|i: int| 0 <= i < next.frames.len() implies (#[trigger] next.frames[i]).entry
        < next.frames[i].exit && joins_pointer(next.blocks, next.frames[i].entry as int) by {
        assert(joins_pointer(emission.blocks, emission.frames[i].entry as int));
    }
}

/// Opening a loop keeps the output sound.
proof fn open_loop_keeps_sound(emission: Emission)
    requires
        sound(emission),
        representable(emission.open_loop().blocks),
    ensures
        sound(emission.open_loop()),
{
    let next = emission.open_loop();
    let here = emission.position as int;
    let entry = emission.blocks.len() as int;
    assert(next.blocks.len() == entry + 3);
    assert(next.frames[next.frames.len() - 1] == LoopFrame {
        entry: entry as usize,
        exit: (entry + 2) as usize,
    });
    assert forall|block: int, index: int|
        0 <= block < next.blocks.len() && 0 <= index
            < next.blocks[block].operations.len() implies #[trigger] operation_well_formed(
        next.blocks,
        block,
        index,
    ) by {
        if block < entry {
            assert(operation_well_formed(emission.blocks, block, index));
        }
    }
    assert forall|i: int| 0 <= i < next.frames.len() implies (#[trigger] next.frames[i]).entry
        < next.frames[i].exit && joins_pointer(next.blocks, next.frames[i].entry as int) by {
        if i < emission.frames.len() {
            assert(next.frames[i] == emission.frames[i]);
            assert(joins_pointer(emission.blocks, emission.frames[i].entry as int));
        }
    }
    assert forall|i: int| 0 <= i < next.frames.len() implies (#[trigger] next.frames[i]).exit
        < next.blocks.len() by {
        if i < emission.frames.len() {
            assert(next.frames[i] == emission.frames[i]);
        }
    }
    assert forall|block: int|
        0 <= block < next.blocks.len() && block != next.position && !is_open_exit(
            next.frames,
            block,
        ) implies #[trigger] terminator_well_formed(next.blocks, block) by {
        if block == entry + 2 {
            assert(next.frames[next.frames.len() - 1].exit == block);
        } else if block == entry {
        } else if block == here {
        } else {
            if is_open_exit(emission.frames, block) {
                let i = choose|i: int|
                    0 <= i < emission.frames.len() && (#[trigger] emission.frames[i]).exit
                        == block;
                assert(next.frames[i].exit == block);
            }
            assert(terminator_well_formed(emission.blocks, block));
        }
    }
}

/// Closing a loop that is open keeps the output sound.
proof fn close_loop_keeps_sound(emission: Emission)
    requires
        sound(emission),
        emission.frames.len() > 0,
    ensures
        sound(emission.close_loop()),
{
    let next = emission.close_loop();
    let here = emission.position as int;
    let frame = emission.frames.last();
    assert(frame == emission.frames[emission.frames.len() - 1]);
    assert(joins_pointer(emission.blocks, frame.entry as int));
    assert forall|block: int, index: int|
        0 <= block < next.blocks.len() && 0 <= index
            < next.blocks[block].operations.len() implies #[trigger] operation_well_formed(
        next.blocks,
        block,
        index,
    ) by {
        assert(operation_well_formed(emission.blocks, block, index));
    }
    assert forall|i: int| 0 <= i < next.frames.len() implies (#[trigger] next.frames[i]).entry
        < next.frames[i].exit && joins_pointer(next.blocks, next.frames[i].entry as int) by {
        assert(next.frames[i] == emission.frames[i]);
        assert(joins_pointer(emission.blocks, emission.frames[i].entry as int));
    }
    assert forall|i: int| 0 <= i < next.frames.len() implies (#[trigger] next.frames[i]).exit
        < next.blocks.len() by {
        assert(next.frames[i] == emission.frames[i]);
    }
    assert forall|block: int|
        0 <= block < next.blocks.len() && block != next.position && !is_open_exit(
            next.frames,
            block,
        ) implies #[trigger] terminator_well_formed(next.blocks, block) by {
        if block != here {
            if is_open_exit(emission.frames, block) {
                let i = choose|i: int|
                    0 <= i < emission.frames.len() && (#[trigger] emission.frames[i]).exit
                        == block;
                if i < next.frames.len() {
                    assert(next.frames[i].exit == block);
                }
            }
            assert(terminator_well_formed(emission.blocks, block));
        }
    }
}

/// A step that goes on, to an output that is representable, keeps it sound.
pub proof fn step_keeps_sound(emission: Emission, stream: Seq<Instruction>)
    requires
        sound(emission),
        stream.len() > 0,
    ensures
        step(emission, stream) matches Ok(next) ==> (representable(next.blocks) ==> sound(next)),
{
    match step(emission, stream) {
        Ok(next) => {
            if representable(next.blocks) {
                let here = emission.position as int;
                assert(next.blocks[here].operations.len() <= usize::MAX);
                match stream[0] {
                    Instruction::Output => {
                        let loaded = emission.emit(Operation::Load { pointer: emission.pointer });
                        emit_keeps_sound(emission, Operation::Load { pointer: emission.pointer });
                        emit_keeps_sound(loaded, Operation::Put { value: emission.next_value() });
                    },
                    Instruction::Input => {
                        let called = emission.emit(Operation::Get);
                        emit_keeps_sound(emission, Operation::Get);
                        emit_keeps_sound(
                            called,
                            Operation::Store {
                                value: emission.next_value(),
                                pointer: emission.pointer,
                            },
                        );
                    },
                    Instruction::Advance | Instruction::Decrease => {
                        let amount = cell_amount(stream.take(consumed(stream) as int));
                        if amount != 0 {
                            let loaded = emission.emit(
                                Operation::Load { pointer: emission.pointer },
                            );
                            let added = loaded.emit(
                                Operation::Add { value: emission.next_value(), amount },
                            );
                            emit_keeps_sound(
                                emission,
                                Operation::Load { pointer: emission.pointer },
                            );
                            emit_keeps_sound(
                                loaded,
                                Operation::Add { value: emission.next_value(), amount },
                            );
                            emit_keeps_sound(
                                added,
                                Operation::Store {
                                    value: loaded.next_value(),
                                    pointer: emission.pointer,
                                },
                            );
                        }
                    },
                    Instruction::MoveRight | Instruction::MoveLeft => {
                        let offset = pointer_offset(stream.take(consumed(stream) as int));
                        if offset != 0 {
                            emit_keeps_sound(
                                emission,
                                Operation::Offset { pointer: emission.pointer, offset },
                            );
                        }
                    },
                    Instruction::StartLoop => {
                        open_loop_keeps_sound(emission);
                    },
                    Instruction::CloseLoop => {
                        close_loop_keeps_sound(emission);
                    },
                    Instruction::EndOfInput => {},
                }
            }
        },
        Err(error) => {},
    }
}

/// Generation that ends in an output that is representable keeps it sound.
pub proof fn generate_keeps_sound(emission: Emission, stream: Seq<Instruction>)
    requires
        sound(emission),
    ensures
        generate(emission, stream) matches Ok(last) ==> (representable(last.blocks) ==> sound(
            last,
        )),
    decreases stream.len(),
{
    if stream.len() > 0 && stream[0] != Instruction::EndOfInput {
        consumed_bounds(stream);
        step_keeps_sound(emission, stream);
        step_grows(emission, stream);
        match step(emission, stream) {
            Ok(next) => {
                let rest = stream.skip(consumed(stream) as int);
                generate_grows(next, rest);
                match generate(next, rest) {
                    Ok(last) => {
                        if representable(last.blocks) {
                            assert forall|block: int| 0 <= block < next.blocks.len() implies (
                            #[trigger] next.blocks[block]).operations.len() <= usize::MAX by {
                                assert(last.blocks[block].operations.len() <= usize::MAX);
                            }
                            generate_keeps_sound(next, rest);
                        }
                    },
                    Err(error) => {},
                }
            },
            Err(error) => {},
        }
    }
}

/// Every program that a text compiles to, and that fits the machine's
/// integers, is well formed.
pub proof fn compiled_program_is_well_formed(stream: Seq<Instruction>)
    ensures
        compile(stream) matches Ok(blocks) ==> (representable(blocks) ==> well_formed(blocks)),
{
    generate_keeps_sound(Emission::start(), stream);
    generate_grows(Emission::start(), stream);
    match generate(Emission::start(), stream) {
        Ok(last) => {
            let blocks = last.seal(Terminator::Return).blocks;
            if last.frames.len() == 0 && representable(blocks) {
                assert forall|block: int| 0 <= block < last.blocks.len() implies (
                #[trigger] last.blocks[block]).operations.len() <= usize::MAX by {
                    assert(blocks[block].operations.len() <= usize::MAX);
                }
                assert forall|block: int, index: int|
                    0 <= block < blocks.len() && 0 <= index
                        < blocks[block].operations.len() implies #[trigger] operation_well_formed(
                    blocks,
                    block,
                    index,
                ) by {
                    assert(operation_well_formed(last.blocks, block, index));
                }
                assert forall|block: int|
                    0 <= block < blocks.len() implies #[trigger] terminator_well_formed(
                    blocks,
                    block,
                ) by {
                    if block != last.position {
                        assert(terminator_well_formed(last.blocks, block));
                    }
                }
            }
        },
        Err(error) => {},
    }
}

} // verus!
