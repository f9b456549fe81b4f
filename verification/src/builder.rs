//! The arena of blocks under construction and the cursor into it.
use crate::lowering::{Emission, StructuralError};
use crate::program::{
    block_views, Block, LoopFrame, Operation, Program, Terminator, ValueRef, TAPE_CELLS,
};
use vstd::prelude::*;

verus! {

/// Emits operations into a growing set of blocks. Each method takes the builder
/// and gives back the builder after the emission.
pub struct Builder {
    blocks: Vec<Block>,
    position: usize,
    pointer: ValueRef,
    frames: Vec<LoopFrame>,
}

impl View for Builder {
    type V = Emission;

    closed spec fn view(&self) -> Emission {
        Emission {
            blocks: block_views(self.blocks@),
            position: self.position,
            pointer: self.pointer,
            frames: self.frames@,
        }
    }
}

impl Builder {
    #[verifier::type_invariant]
    spec fn in_bounds(&self) -> bool {
        self@.in_bounds()
    }

    /// A builder positioned in the entry block, after the tape's allocation.
    pub fn new() -> (builder: Self)
        ensures
            builder@ == Emission::start(),
    {
        let mut operations = Vec::new();
        operations.push(Operation::Allocate { count: TAPE_CELLS, size: 1 });
        let mut blocks = Vec::new();
        blocks.push(Block { operations, terminator: None });
        let frames = Vec::new();
        assert(block_views(blocks@) =~= Emission::start().blocks);
        assert(frames@ =~= Emission::start().frames);
        Builder { blocks, position: 0, pointer: ValueRef { block: 0, index: 0 }, frames }
    }

    /// Appends `operation` to the block at the position and gives the name of
    /// the value that it defines there.
    fn emit(self, operation: Operation) -> (emitted: (Self, ValueRef))
        ensures
            emitted.0@ == self@.emit(operation),
            emitted.1 == self@.next_value(),
    {
        proof {
            use_type_invariant(&self);
        }
        let Builder { mut blocks, position, pointer, frames } = self;
        let value = ValueRef { block: position, index: blocks[position].operations.len() };
        blocks[position].operations.push(operation);
        assert(block_views(blocks@) =~= self@.emit(operation).blocks);
        (Builder { blocks, position, pointer, frames }, value)
    }

    fn seal(self, terminator: Terminator) -> (next: Self)
        ensures
            next@ == self@.seal(terminator),
    {
        proof {
            use_type_invariant(&self);
        }
        let Builder { mut blocks, position, pointer, frames } = self;
        blocks[position].terminator = Some(terminator);
        assert(block_views(blocks@) =~= self@.seal(terminator).blocks);
        Builder { blocks, position, pointer, frames }
    }

    /// Emits what a run of increments and decrements does that adds `amount`:
    /// load, add, store; or nothing, where `amount` is zero.
    pub fn add_to_cell(self, amount: u8) -> (next: Self)
        ensures
            next@ == self@.add_to_cell(amount),
    {
        if amount != 0 {
            let pointer = self.pointer;
            let (builder, cell) = self.emit(Operation::Load { pointer });
            let (builder, sum) = builder.emit(Operation::Add { value: cell, amount });
            let (builder, _) = builder.emit(Operation::Store { value: sum, pointer });
            builder
        } else {
            self
        }
    }

    /// Emits what a run of moves does that shifts the pointer by `offset`: the
    /// new pointer, which is the current one from then on; or nothing, where
    /// `offset` is zero.
    pub fn offset_pointer(self, offset: u64) -> (next: Self)
        ensures
            next@ == self@.offset_pointer(offset),
    {
        if offset != 0 {
            let pointer = self.pointer;
            let (builder, moved) = self.emit(Operation::Offset { pointer, offset });
            proof {
                use_type_invariant(&builder);
            }
            let Builder { blocks, position, pointer: _, frames } = builder;
            assert(block_views(blocks@) == builder@.blocks);
            assert(frames@ == builder@.frames);
            Builder { blocks, position, pointer: moved, frames }
        } else {
            self
        }
    }

    /// Emits the output of the current cell: load, then the call.
    pub fn output(self) -> (next: Self)
        ensures
            next@ == self@.output(),
    {
        let pointer = self.pointer;
        let (builder, cell) = self.emit(Operation::Load { pointer });
        let (builder, _) = builder.emit(Operation::Put { value: cell });
        builder
    }

    /// Emits the input into the current cell: the call, then the store.
    pub fn input(self) -> (next: Self)
        ensures
            next@ == self@.input(),
    {
        let pointer = self.pointer;
        let (builder, character) = self.emit(Operation::Get);
        let (builder, _) = builder.emit(Operation::Store { value: character, pointer });
        builder
    }

    /// Opens a loop and goes on in its body.
    pub fn open_loop(self) -> (next: Self)
        ensures
            next@ == self@.open_loop(),
    {
        proof {
            use_type_invariant(&self);
        }
        let Builder { mut blocks, position, pointer, mut frames } = self;
        assert(block_views(blocks@).len() == blocks@.len());
        let entry = blocks.len();
        let joined = ValueRef { block: entry, index: 0 };
        let tested = ValueRef { block: entry, index: 1 };
        let mut test = Vec::new();
        test.push(Operation::Join);
        test.push(Operation::Load { pointer: joined });
        assert(test@ =~= seq![Operation::Join, Operation::Load { pointer: joined }]);
        blocks.push(Block { operations: test, terminator: None });
        blocks.push(Block { operations: Vec::new(), terminator: None });
        blocks.push(Block { operations: Vec::new(), terminator: None });
        assert(blocks@.len() == entry + 3);
        let exit = blocks.len() - 1;
        let body = exit - 1;
        blocks[position].terminator = Some(Terminator::Jump { target: entry, pointer });
        blocks[entry].terminator = Some(
            Terminator::Branch { value: tested, nonzero: body, zero: exit },
        );
        frames.push(LoopFrame { entry, exit });
        assert(block_views(blocks@) =~= self@.open_loop().blocks);
        assert(frames@ =~= self@.open_loop().frames);
        Builder { blocks, position: body, pointer: joined, frames }
    }

    /// Closes the innermost open loop and goes on after it; without an open
    /// loop, reports the missing opening.
    pub fn close_loop(self) -> (outcome: Result<Self, StructuralError>)
        ensures
            self@.frames.len() == 0 ==> outcome is Err && outcome->Err_0
                == StructuralError::UnopenedLoop,
            self@.frames.len() > 0 ==> outcome is Ok && outcome->Ok_0@ == self@.close_loop(),
    {
        proof {
            use_type_invariant(&self);
        }
        let Builder { mut blocks, position, pointer, mut frames } = self;
        match frames.pop() {
            None => Err(StructuralError::UnopenedLoop),
            Some(frame) => {
                assert(frame == self@.frames.last());
                assert(frame == self@.frames[self@.frames.len() - 1]);
                blocks[position].terminator = Some(
                    Terminator::Jump { target: frame.entry, pointer },
                );
                assert(frames@ =~= self@.frames.drop_last());
                assert(block_views(blocks@) =~= self@.close_loop().blocks);
                Ok(
                    Builder {
                        blocks,
                        position: frame.exit,
                        pointer: ValueRef { block: frame.entry, index: 0 },
                        frames,
                    },
                )
            },
        }
    }

    /// Ends the program with a return; inside a loop, reports the missing
    /// closing instead.
    pub fn finish(self) -> (outcome: Result<Program, StructuralError>)
        ensures
            self@.frames.len() > 0 ==> outcome == Err::<Program, StructuralError>(
                StructuralError::UnterminatedLoop,
            ),
            self@.frames.len() == 0 ==> (outcome matches Ok(program) && program@ == self@.seal(
                Terminator::Return,
            ).blocks),
    {
        if self.frames.len() > 0 {
            return Err(StructuralError::UnterminatedLoop);
        }
        let sealed = self.seal(Terminator::Return);
        Ok(Program { blocks: sealed.blocks })
    }
}

} // verus!
