//! What the code generator emits, as a state machine over instruction streams.
//!
//! An [`Emission`] is the generator's output so far. Each instruction, or run of
//! additive instructions, takes it to the next one ([`step`]); [`generate`]
//! walks a whole stream, and [`compile`] gives the finished program or the
//! structural error of a stream whose loops do not match.
//!
//! The pointer to the current cell is never updated in place. A run of moves
//! defines a new pointer from the current one, and so does a loop: its test
//! block joins the pointer that enters the loop with the one that the end of
//! the body hands back, and the joined pointer is the current one in the body
//! and after the loop.
use crate::coalescer::{cell_amount, occurrences, pointer_offset, run_length, run_length_bounds};
use crate::parser::Instruction;
use crate::program::{BlockView, LoopFrame, Operation, Terminator, ValueRef, TAPE_CELLS};
use vstd::prelude::*;

verus! {

/// Why a source text has no program.
#[derive(Clone, Copy, Debug, PartialEq, Eq, Structural)]
pub enum StructuralError {
    /// A loop is closed that was never opened: an opening bracket is missing.
    UnopenedLoop,
    /// The text ends inside a loop: a closing bracket is missing.
    UnterminatedLoop,
}

/// The output of the code generator at one moment.
pub struct Emission {
    /// All blocks made so far.
    pub blocks: Seq<BlockView>,
    /// The block that operations are emitted into.
    pub position: usize,
    /// The pointer to the current cell.
    pub pointer: ValueRef,
    /// The loops that are open, innermost last.
    pub frames: Seq<LoopFrame>,
}

impl Emission {
    /// The state before any instruction: one block, which allocates the tape,
    /// and the pointer at the tape's first cell.
    pub open spec fn start() -> Emission {
        Emission {
            blocks: seq![
                BlockView {
                    operations: seq![Operation::Allocate { count: TAPE_CELLS, size: 1 }],
                    terminator: None,
                },
            ],
            position: 0,
            pointer: ValueRef { block: 0, index: 0 },
            frames: Seq::empty(),
        }
    }

    /// The position and every open loop's exit are blocks that exist.
    pub open spec fn in_bounds(self) -> bool {
        &&& self.position < self.blocks.len()
        &&& forall|i: int| 0 <= i < self.frames.len() ==> (#[trigger] self.frames[i]).exit
            < self.blocks.len()
    }

    /// The name of the value that the next operation emitted would define.
    pub open spec fn next_value(self) -> ValueRef {
        ValueRef {
            block: self.position,
            index: self.blocks[self.position as int].operations.len() as usize,
        }
    }

    /// Appends `operation` to the block at the position.
    pub open spec fn emit(self, operation: Operation) -> Emission {
        let block = self.blocks[self.position as int];
        Emission {
            blocks: self.blocks.update(
                self.position as int,
                BlockView {
                    operations: block.operations.push(operation),
                    terminator: block.terminator,
                },
            ),
            ..self
        }
    }

    /// Ends the block at the position with `terminator`.
    pub open spec fn seal(self, terminator: Terminator) -> Emission {
        let block = self.blocks[self.position as int];
        Emission {
            blocks: self.blocks.update(
                self.position as int,
                BlockView { operations: block.operations, terminator: Some(terminator) },
            ),
            ..self
        }
    }

    /// A run of increments and decrements that adds `amount`: the current cell
    /// is loaded, `amount` is added, the sum is stored back. Where the amount is
    /// zero, nothing is emitted.
    pub open spec fn add_to_cell(self, amount: u8) -> Emission {
        if amount == 0 {
            self
        } else {
            let loaded = self.emit(Operation::Load { pointer: self.pointer });
            let added = loaded.emit(Operation::Add { value: self.next_value(), amount });
            added.emit(Operation::Store { value: loaded.next_value(), pointer: self.pointer })
        }
    }

    /// A run of moves that shifts by `offset`: one operation, whose result is
    /// the current pointer from then on. Where the offset is zero, nothing is
    /// emitted and the pointer stays.
    pub open spec fn offset_pointer(self, offset: u64) -> Emission {
        if offset == 0 {
            self
        } else {
            Emission {
                pointer: self.next_value(),
                ..self.emit(Operation::Offset { pointer: self.pointer, offset })
            }
        }
    }

    /// Writes the current cell out: it is loaded and handed to the output
    /// primitive.
    pub open spec fn output(self) -> Emission {
        self.emit(Operation::Load { pointer: self.pointer }).emit(
            Operation::Put { value: self.next_value() },
        )
    }

    /// Reads into the current cell: the input primitive is called and its
    /// result stored.
    pub open spec fn input(self) -> Emission {
        self.emit(Operation::Get).emit(
            Operation::Store { value: self.next_value(), pointer: self.pointer },
        )
    }

    /// Opens a loop. Three blocks are added: the test block, which joins the
    /// pointer, loads the cell it addresses and branches on it, then the body
    /// and the exit. The block at the position jumps to the test block;
    /// emission goes on in the body.
    pub open spec fn open_loop(self) -> Emission {
        let entry = self.blocks.len() as usize;
        let body = (self.blocks.len() + 1) as usize;
        let exit = (self.blocks.len() + 2) as usize;
        let joined = ValueRef { block: entry, index: 0 };
        let tested = ValueRef { block: entry, index: 1 };
        let sealed = self.seal(Terminator::Jump { target: entry, pointer: self.pointer });
        Emission {
            blocks: sealed.blocks.push(
                BlockView {
                    operations: seq![Operation::Join, Operation::Load { pointer: joined }],
                    terminator: Some(
                        Terminator::Branch { value: tested, nonzero: body, zero: exit },
                    ),
                },
            ).push(BlockView { operations: Seq::empty(), terminator: None }).push(
                BlockView { operations: Seq::empty(), terminator: None },
            ),
            position: body,
            pointer: joined,
            frames: self.frames.push(LoopFrame { entry, exit }),
        }
    }

    /// Closes the innermost open loop. The block at the position jumps back to
    /// the loop's test block and hands it the current pointer; emission goes on
    /// in the loop's exit, with the pointer that the test block joined.
    pub open spec fn close_loop(self) -> Emission
        recommends
            self.frames.len() > 0,
    {
        let frame = self.frames.last();
        let sealed = self.seal(Terminator::Jump { target: frame.entry, pointer: self.pointer });
        Emission {
            blocks: sealed.blocks,
            position: frame.exit,
            pointer: ValueRef { block: frame.entry, index: 0 },
            frames: self.frames.drop_last(),
        }
    }
}

/// How many instructions the next step reads from `stream`: a whole run where
/// the first instruction is additive, else one.
pub open spec fn consumed(stream: Seq<Instruction>) -> nat
    recommends
        stream.len() > 0,
{
    match stream[0] {
        Instruction::Advance | Instruction::Decrease => run_length(
            stream,
            Instruction::Advance,
            Instruction::Decrease,
        ),
        Instruction::MoveRight | Instruction::MoveLeft => run_length(
            stream,
            Instruction::MoveRight,
            Instruction::MoveLeft,
        ),
        _ => 1,
    }
}

/// The emission after the next step on `stream`, or the error that stops the
/// generator there.
pub open spec fn step(emission: Emission, stream: Seq<Instruction>) -> Result<
    Emission,
    StructuralError,
>
    recommends
        stream.len() > 0,
{
    match stream[0] {
        Instruction::Output => Ok(emission.output()),
        Instruction::Input => Ok(emission.input()),
        Instruction::Advance | Instruction::Decrease => Ok(
            emission.add_to_cell(cell_amount(stream.take(consumed(stream) as int))),
        ),
        Instruction::MoveRight | Instruction::MoveLeft => Ok(
            emission.offset_pointer(pointer_offset(stream.take(consumed(stream) as int))),
        ),
        Instruction::StartLoop => Ok(emission.open_loop()),
        Instruction::CloseLoop => if emission.frames.len() == 0 {
            Err(StructuralError::UnopenedLoop)
        } else {
            Ok(emission.close_loop())
        },
        Instruction::EndOfInput => Ok(emission),
    }
}

/// A step reads at least one instruction and no more than there are.
pub proof fn consumed_bounds(stream: Seq<Instruction>)
    requires
        stream.len() > 0,
    ensures
        1 <= consumed(stream) <= stream.len(),
{
    run_length_bounds(stream, Instruction::Advance, Instruction::Decrease);
    run_length_bounds(stream, Instruction::MoveRight, Instruction::MoveLeft);
}

/// The emission after all of `stream`, step by step, or the first error. An
/// [`Instruction::EndOfInput`] ends the stream where it stands.
pub open spec fn generate(emission: Emission, stream: Seq<Instruction>) -> Result<
    Emission,
    StructuralError,
>
    decreases stream.len(),
{
    if stream.len() == 0 || stream[0] == Instruction::EndOfInput {
        Ok(emission)
    } else {
        match step(emission, stream) {
            Ok(next) => {
                proof {
                    consumed_bounds(stream);
                }
                generate(next, stream.skip(consumed(stream) as int))
            },
            Err(error) => Err(error),
        }
    }
}

/// The blocks of the finished program where the generator goes on from
/// `emission` over `stream`: what [`generate`] emits, ended by a return; or the
/// error of a stream that closes a loop that is not open or ends inside one.
pub open spec fn compile_from(emission: Emission, stream: Seq<Instruction>) -> Result<
    Seq<BlockView>,
    StructuralError,
> {
    match generate(emission, stream) {
        Ok(last) => if last.frames.len() > 0 {
            Err(StructuralError::UnterminatedLoop)
        } else {
            Ok(last.seal(Terminator::Return).blocks)
        },
        Err(error) => Err(error),
    }
}

/// The blocks of the program for `stream`, or its structural error.
pub open spec fn compile(stream: Seq<Instruction>) -> Result<Seq<BlockView>, StructuralError> {
    compile_from(Emission::start(), stream)
}

/// Loops opened in `stream`, less loops closed.
pub open spec fn depth(stream: Seq<Instruction>) -> int {
    occurrences(stream, Instruction::StartLoop) - occurrences(stream, Instruction::CloseLoop)
}

/// No prefix of `stream` closes more loops than it opens.
pub open spec fn closes_only_open_loops(stream: Seq<Instruction>) -> bool {
    forall|length: int| 0 <= length <= stream.len() ==> depth(#[trigger] stream.take(length)) >= 0
}

/// The brackets of `stream` match: as many loops are closed as opened, and
/// none before it is opened.
pub open spec fn balanced(stream: Seq<Instruction>) -> bool {
    depth(stream) == 0 && closes_only_open_loops(stream)
}

} // verus!
