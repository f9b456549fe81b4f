//! The program that the code generator builds: basic blocks of abstract native
//! operations against a byte tape.
//!
//! The program is in static single assignment form. An operation that yields a
//! value, a pointer into the tape or a byte, defines it once, and other
//! operations name the value by the place of its definition.
use vstd::prelude::*;

verus! {

/// Number of cells of the tape.
pub const TAPE_CELLS: u64 = 30000;

/// Names a value by the operation that defines it: the operation at `index` in
/// the block at `block`.
#[derive(Clone, Copy, Debug, PartialEq, Eq, Hash, Structural)]
pub struct ValueRef {
    pub block: usize,
    pub index: usize,
}

/// A native operation inside a block.
#[derive(Clone, Copy, Debug, PartialEq, Eq, Structural)]
pub enum Operation {
    /// Calls the zero-filling allocator for `count` items of `size` bytes each;
    /// defines the pointer to the first byte.
    Allocate { count: u64, size: u64 },
    /// Stands first in a loop's test block; defines the pointer that each jump
    /// to the block hands over.
    Join,
    /// Defines the pointer `offset` bytes from `pointer`, with pointer-width
    /// wraparound.
    Offset { pointer: ValueRef, offset: u64 },
    /// Defines the byte at `pointer`.
    Load { pointer: ValueRef },
    /// Defines the byte `value + amount`, with 8-bit wraparound.
    Add { value: ValueRef, amount: u8 },
    /// Writes the byte `value` at `pointer`.
    Store { value: ValueRef, pointer: ValueRef },
    /// Calls the character-output primitive with the byte `value`.
    Put { value: ValueRef },
    /// Calls the character-input primitive; defines the byte it returns.
    Get,
}

/// The operation that ends a block.
#[derive(Clone, Copy, Debug, PartialEq, Eq, Structural)]
pub enum Terminator {
    /// Goes to the test block `target` and hands it `pointer`.
    Jump { target: usize, pointer: ValueRef },
    /// Compares the byte `value` to zero and goes to `nonzero` or to `zero`.
    Branch { value: ValueRef, nonzero: usize, zero: usize },
    /// Returns zero from the entry point.
    Return,
}

/// A basic block: operations in order, then a terminator once it is sealed.
#[derive(Clone, Debug, PartialEq, Eq)]
pub struct Block {
    pub operations: Vec<Operation>,
    pub terminator: Option<Terminator>,
}

/// A block as a mathematical value.
pub struct BlockView {
    pub operations: Seq<Operation>,
    pub terminator: Option<Terminator>,
}

impl View for Block {
    type V = BlockView;

    open spec fn view(&self) -> BlockView {
        BlockView { operations: self.operations@, terminator: self.terminator }
    }
}

/// The blocks of a finished program; execution starts at block 0.
#[derive(Clone, Debug, PartialEq, Eq)]
pub struct Program {
    pub blocks: Vec<Block>,
}

/// The views of a sequence of blocks.
pub open spec fn block_views(blocks: Seq<Block>) -> Seq<BlockView> {
    blocks.map_values(|block: Block| block@)
}

impl View for Program {
    type V = Seq<BlockView>;

    open spec fn view(&self) -> Seq<BlockView> {
        block_views(self.blocks@)
    }
}

/// One open loop: the block that tests the cell and the block that follows the loop.
#[derive(Clone, Copy, Debug, PartialEq, Eq, Structural)]
pub struct LoopFrame {
    pub entry: usize,
    pub exit: usize,
}

/// What a value is.
#[derive(Clone, Copy, Debug, PartialEq, Eq, Structural)]
pub enum Kind {
    Pointer,
    Byte,
}

/// The kind of value that an operation defines, if it defines one.
pub open spec fn defined_kind(operation: Operation) -> Option<Kind> {
    match operation {
        Operation::Allocate { count, size } => Some(Kind::Pointer),
        Operation::Join => Some(Kind::Pointer),
        Operation::Offset { pointer, offset } => Some(Kind::Pointer),
        Operation::Load { pointer } => Some(Kind::Byte),
        Operation::Add { value, amount } => Some(Kind::Byte),
        Operation::Store { value, pointer } => None,
        Operation::Put { value } => None,
        Operation::Get => Some(Kind::Byte),
    }
}

/// `value` names an operation of `blocks` that defines a value of kind `kind`.
pub open spec fn defines(blocks: Seq<BlockView>, value: ValueRef, kind: Kind) -> bool {
    &&& value.block < blocks.len()
    &&& value.index < blocks[value.block as int].operations.len()
    &&& defined_kind(blocks[value.block as int].operations[value.index as int]) == Some(kind)
}

/// `value` is a value of kind `kind` that is defined before the place `index`
/// of the block `block`: in a block of a lower number, or earlier in that
/// block.
pub open spec fn defined_before(
    blocks: Seq<BlockView>,
    value: ValueRef,
    kind: Kind,
    block: int,
    index: int,
) -> bool {
    &&& defines(blocks, value, kind)
    &&& value.block < block || (value.block == block && value.index < index)
}

/// The operation at `index` of the block `block` works on values of the right
/// kinds that are defined before it, and a join stands first in its block.
pub open spec fn operation_well_formed(blocks: Seq<BlockView>, block: int, index: int) -> bool {
    match blocks[block].operations[index] {
        Operation::Allocate { count, size } => true,
        Operation::Join => index == 0,
        Operation::Offset { pointer, offset } => defined_before(
            blocks,
            pointer,
            Kind::Pointer,
            block,
            index,
        ),
        Operation::Load { pointer } => defined_before(blocks, pointer, Kind::Pointer, block, index),
        Operation::Add { value, amount } => defined_before(blocks, value, Kind::Byte, block, index),
        Operation::Store { value, pointer } => {
            &&& defined_before(blocks, value, Kind::Byte, block, index)
            &&& defined_before(blocks, pointer, Kind::Pointer, block, index)
        },
        Operation::Put { value } => defined_before(blocks, value, Kind::Byte, block, index),
        Operation::Get => true,
    }
}

/// The block `block` exists and starts by joining the pointers handed to it.
pub open spec fn joins_pointer(blocks: Seq<BlockView>, block: int) -> bool {
    &&& 0 <= block < blocks.len()
    &&& blocks[block].operations.len() > 0
    &&& blocks[block].operations[0] == Operation::Join
}

/// The block `block` is sealed; a jump goes to a block that joins pointers and
/// hands it a pointer, a branch tests a byte and goes to blocks that exist; and
/// the value that the terminator reads is defined before the end of the block.
pub open spec fn terminator_well_formed(blocks: Seq<BlockView>, block: int) -> bool {
    let end = blocks[block].operations.len() as int;
    match blocks[block].terminator {
        None => false,
        Some(Terminator::Return) => true,
        Some(Terminator::Jump { target, pointer }) => {
            &&& joins_pointer(blocks, target as int)
            &&& defined_before(blocks, pointer, Kind::Pointer, block, end)
        },
        Some(Terminator::Branch { value, nonzero, zero }) => {
            &&& nonzero < blocks.len()
            &&& zero < blocks.len()
            &&& defined_before(blocks, value, Kind::Byte, block, end)
        },
    }
}

/// What a backend may rely on. The entry block starts by allocating the tape;
/// every block is sealed and goes on to blocks that exist; and every value that
/// is used is of the kind that its use asks for and has been defined, in a
/// block of a lower number or earlier in the same block: a pass over the
/// blocks in order meets each definition before its uses.
pub open spec fn well_formed(blocks: Seq<BlockView>) -> bool {
    &&& blocks.len() > 0
    &&& blocks[0].operations.len() > 0
    &&& blocks[0].operations[0] == Operation::Allocate { count: TAPE_CELLS, size: 1 }
    &&& forall|block: int, index: int|
        0 <= block < blocks.len() && 0 <= index < blocks[block].operations.len()
            ==> #[trigger] operation_well_formed(blocks, block, index)
    &&& forall|block: int|
        0 <= block < blocks.len() ==> #[trigger] terminator_well_formed(blocks, block)
}

/// The numbers of the blocks, and of the operations of each block, fit a
/// machine integer.
pub open spec fn representable(blocks: Seq<BlockView>) -> bool {
    &&& blocks.len() <= usize::MAX
    &&& forall|block: int|
        0 <= block < blocks.len() ==> (#[trigger] blocks[block]).operations.len() <= usize::MAX
}

impl Program {
    /// A program in memory is representable.
    pub proof fn is_representable(&self)
        ensures
            representable(self@),
    {
        assert(self.blocks.len() == self.blocks@.len());
        assert forall|block: int| 0 <= block < self@.len() implies (
        #[trigger] self@[block]).operations.len() <= usize::MAX by {
            let operations = self.blocks@[block].operations;
            assert(operations.len() == operations@.len());
        }
    }
}

} // verus!
