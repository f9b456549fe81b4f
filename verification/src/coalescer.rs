//! The coalescer: one instruction of lookahead over the scanner, and the folding
//! of a run of additive instructions into its net amount.
//!
//! Increments and decrements of a cell form one family, moves of the pointer
//! right and left the other. A run is a longest stretch of instructions of one
//! family; what it does is the number of its `up` members less the number of its
//! `down` members, wrapped to the width of a cell or of the pointer.
use crate::parser::{scanned_instructions_are_commands, Instruction, Parser};
use vstd::prelude::*;

verus! {

/// Length of the longest prefix of `stream` that holds only `up` and `down`.
pub open spec fn run_length(stream: Seq<Instruction>, up: Instruction, down: Instruction) -> nat
    decreases stream.len(),
{
    if stream.len() > 0 && (stream[0] == up || stream[0] == down) {
        1 + run_length(stream.drop_first(), up, down)
    } else {
        0
    }
}

/// How often `instruction` occurs in `stream`.
pub open spec fn occurrences(stream: Seq<Instruction>, instruction: Instruction) -> nat
    decreases stream.len(),
{
    if stream.len() == 0 {
        0
    } else {
        occurrences(stream.drop_last(), instruction) + if stream.last() == instruction {
            1nat
        } else {
            0nat
        }
    }
}

/// Occurrences of `up` in `run`, less those of `down`.
pub open spec fn net_offset(run: Seq<Instruction>, up: Instruction, down: Instruction) -> int {
    occurrences(run, up) - occurrences(run, down)
}

/// What a run of increments and decrements adds to a cell: its net offset
/// modulo 256.
pub open spec fn cell_amount(run: Seq<Instruction>) -> u8 {
    (net_offset(run, Instruction::Advance, Instruction::Decrease) % 256) as u8
}

/// By how many cells a run of moves shifts the pointer: its net offset modulo
/// two to the pointer width, 64.
pub open spec fn pointer_offset(run: Seq<Instruction>) -> u64 {
    (net_offset(run, Instruction::MoveRight, Instruction::MoveLeft) % 0x1_0000_0000_0000_0000) as u64
}

/// A run is no longer than its stream, and all of it is of the family.
pub proof fn run_length_bounds(stream: Seq<Instruction>, up: Instruction, down: Instruction)
    ensures
        run_length(stream, up, down) <= stream.len(),
        forall|i: int|
            0 <= i < run_length(stream, up, down) ==> (#[trigger] stream[i] == up || stream[i]
                == down),
        run_length(stream, up, down) < stream.len() ==> {
            let next = stream[run_length(stream, up, down) as int];
            next != up && next != down
        },
    decreases stream.len(),
{
    if stream.len() > 0 && (stream[0] == up || stream[0] == down) {
        let rest = stream.drop_first();
        run_length_bounds(rest, up, down);
        assert forall|i: int| 0 <= i < run_length(stream, up, down) implies (#[trigger] stream[i]
            == up || stream[i] == down) by {
            if i > 0 {
                assert(stream[i] == rest[i - 1]);
            }
        }
    }
}

/// A prefix of the family that the stream's end or another instruction follows
/// is the run.
pub proof fn run_length_is(stream: Seq<Instruction>, up: Instruction, down: Instruction, length: int)
    requires
        0 <= length <= stream.len(),
        forall|i: int| 0 <= i < length ==> (#[trigger] stream[i] == up || stream[i] == down),
        length < stream.len() ==> stream[length] != up && stream[length] != down,
    ensures
        run_length(stream, up, down) == length,
    decreases length,
{
    if length > 0 {
        let rest = stream.drop_first();
        assert(stream[0] == up || stream[0] == down);
        assert forall|i: int| 0 <= i < length - 1 implies (#[trigger] rest[i] == up || rest[i]
            == down) by {
            assert(rest[i] == stream[i + 1]);
        }
        run_length_is(rest, up, down, length - 1);
    }
}

/// The net offset of a prefix grows by one with an `up`, shrinks by one with a
/// `down`.
pub proof fn net_offset_extends(
    stream: Seq<Instruction>,
    up: Instruction,
    down: Instruction,
    length: int,
)
    requires
        0 <= length < stream.len(),
        up != down,
    ensures
        net_offset(stream.take(length + 1), up, down) == net_offset(stream.take(length), up, down)
            + if stream[length] == up {
            1int
        } else if stream[length] == down {
            -1int
        } else {
            0int
        },
{
    let longer = stream.take(length + 1);
    assert(longer.drop_last() == stream.take(length));
    assert(longer.last() == stream[length]);
}

/// Occurrences add up over a concatenation.
pub proof fn occurrences_of_concatenation(
    front: Seq<Instruction>,
    back: Seq<Instruction>,
    instruction: Instruction,
)
    ensures
        occurrences(front + back, instruction) == occurrences(front, instruction) + occurrences(
            back,
            instruction,
        ),
    decreases back.len(),
{
    if back.len() == 0 {
        assert(front + back == front);
    } else {
        assert((front + back).drop_last() == front + back.drop_last());
        occurrences_of_concatenation(front, back.drop_last(), instruction);
    }
}

/// An instruction that a stream does not hold occurs in it zero times.
pub proof fn occurrences_of_absent(stream: Seq<Instruction>, instruction: Instruction)
    requires
        forall|i: int| 0 <= i < stream.len() ==> #[trigger] stream[i] != instruction,
    ensures
        occurrences(stream, instruction) == 0,
    decreases stream.len(),
{
    if stream.len() > 0 {
        let front = stream.drop_last();
        assert forall|i: int| 0 <= i < front.len() implies #[trigger] front[i] != instruction by {
            assert(front[i] == stream[i]);
        }
        occurrences_of_absent(front, instruction);
    }
}

/// Where a stretch of the family stands in front of a stream, the run of the
/// whole is the stretch and the run of the stream behind it, and its net offset
/// is the sum of theirs.
pub proof fn run_of_concatenation(
    front: Seq<Instruction>,
    back: Seq<Instruction>,
    up: Instruction,
    down: Instruction,
)
    requires
        forall|i: int| 0 <= i < front.len() ==> (#[trigger] front[i] == up || front[i] == down),
    ensures
        run_length(front + back, up, down) == front.len() + run_length(back, up, down),
        (front + back).take(run_length(front + back, up, down) as int) == front + back.take(
            run_length(back, up, down) as int,
        ),
        (front + back).skip(run_length(front + back, up, down) as int) == back.skip(
            run_length(back, up, down) as int,
        ),
        net_offset((front + back).take(run_length(front + back, up, down) as int), up, down)
            == net_offset(front, up, down) + net_offset(
            back.take(run_length(back, up, down) as int),
            up,
            down,
        ),
{
    let whole = front + back;
    let behind = run_length(back, up, down) as int;
    let length = front.len() + behind;
    run_length_bounds(back, up, down);
    assert forall|i: int| 0 <= i < length implies (#[trigger] whole[i] == up || whole[i]
        == down) by {
        if i >= front.len() {
            assert(whole[i] == back[i - front.len()]);
        } else {
            assert(whole[i] == front[i]);
        }
    }
    if length < whole.len() {
        assert(whole[length] == back[behind]);
    }
    run_length_is(whole, up, down, length);
    assert(whole.take(length) == front + back.take(behind));
    assert(whole.skip(length) == back.skip(behind));
    occurrences_of_concatenation(front, back.take(behind), up);
    occurrences_of_concatenation(front, back.take(behind), down);
}

/// The scanner with the instruction under the cursor held ready.
pub struct Coalescer<'c> {
    parser: Parser<'c>,
    current: Instruction,
}

impl<'c> View for Coalescer<'c> {
    type V = Seq<Instruction>;

    /// The instructions that are still to come, the one under the cursor first.
    closed spec fn view(&self) -> Seq<Instruction> {
        if self.current == Instruction::EndOfInput {
            Seq::empty()
        } else {
            seq![self.current] + self.parser@
        }
    }
}

impl<'c> Coalescer<'c> {
    /// The stream holds commands only: [`Instruction::EndOfInput`] is what the
    /// cursor shows behind its end.
    pub proof fn holds_commands(&self)
        ensures
            forall|i: int| 0 <= i < self@.len() ==> #[trigger] self@[i] != Instruction::EndOfInput,
    {
        scanned_instructions_are_commands(self.parser.unread());
    }

    /// Reads the first instruction of `parser` into the lookahead.
    pub fn new(parser: Parser<'c>) -> (coalescer: Self)
        ensures
            coalescer@ == parser@,
    {
        let mut parser = parser;
        let ghost stream = parser@;
        proof {
            scanned_instructions_are_commands(parser.unread());
        }
        let current = match parser.next() {
            Some(instruction) => instruction,
            None => Instruction::default(),
        };
        assert(stream.len() > 0 ==> seq![current] + parser@ == stream);
        Self { parser, current }
    }

    /// The instruction under the cursor; [`Instruction::EndOfInput`] once the
    /// stream is exhausted.
    pub fn current(&self) -> (instruction: Instruction)
        ensures
            self@.len() == 0 ==> instruction == Instruction::EndOfInput,
            self@.len() > 0 ==> instruction == self@[0] && instruction != Instruction::EndOfInput,
    {
        self.current
    }

    /// Moves the cursor to the next instruction; at the end of the stream, stays.
    pub fn advance(&mut self)
        ensures
            old(self)@.len() == 0 ==> final(self)@ == old(self)@,
            old(self)@.len() > 0 ==> final(self)@ == old(self)@.drop_first(),
    {
        if self.current == Instruction::EndOfInput {
            return ;
        }
        proof {
            scanned_instructions_are_commands(self.parser.unread());
        }
        let ghost stream = self.parser@;
        let next = match self.parser.next() {
            Some(instruction) => instruction,
            None => Instruction::default(),
        };
        assert(stream.len() > 0 ==> seq![next] + self.parser@ == stream);
        assert(old(self)@.drop_first() == stream);
        self.current = next;
    }

    /// Folds the run of increments and decrements under the cursor into the
    /// amount it adds to a cell, and leaves the cursor on what follows the run.
    pub fn fold_cells(&mut self) -> (amount: u8)
        ensures
            amount == cell_amount(
                old(self)@.take(
                    run_length(old(self)@, Instruction::Advance, Instruction::Decrease) as int,
                ),
            ),
            final(self)@ == old(self)@.skip(
                run_length(old(self)@, Instruction::Advance, Instruction::Decrease) as int,
            ),
    {
        let mut amount: u8 = 0;
        let ghost mut taken: int = 0;
        assert(old(self)@.take(0).len() == 0);
        assert(old(self)@.skip(0) == old(self)@);
        loop
            invariant
                0 <= taken <= old(self)@.len(),
                self@ == old(self)@.skip(taken),
                forall|i: int|
                    0 <= i < taken ==> (#[trigger] old(self)@[i] == Instruction::Advance || old(self)@[i] == Instruction::Decrease),
                amount == cell_amount(old(self)@.take(taken)),
            decreases self@.len(),
        {
            let up = match self.current() {
                Instruction::Advance => true,
                Instruction::Decrease => false,
                _ => {
                    proof {
                        run_length_is(
                            old(self)@,
                            Instruction::Advance,
                            Instruction::Decrease,
                            taken,
                        );
                    }
                    return amount;
                },
            };
            proof {
                assert(self@[0] == old(self)@[taken]);
                net_offset_extends(old(self)@, Instruction::Advance, Instruction::Decrease, taken);
                assert(old(self)@.skip(taken).drop_first() == old(self)@.skip(taken + 1));
            }
            amount = if up {
                amount.wrapping_add(1)
            } else {
                amount.wrapping_sub(1)
            };
            self.advance();
            proof {
                taken = taken + 1;
            }
        }
    }

    /// Folds the run of moves under the cursor into the number of cells it
    /// shifts the pointer by, and leaves the cursor on what follows the run.
    pub fn fold_moves(&mut self) -> (offset: u64)
        ensures
            offset == pointer_offset(
                old(self)@.take(
                    run_length(old(self)@, Instruction::MoveRight, Instruction::MoveLeft) as int,
                ),
            ),
            final(self)@ == old(self)@.skip(
                run_length(old(self)@, Instruction::MoveRight, Instruction::MoveLeft) as int,
            ),
    {
        let mut offset: u64 = 0;
        let ghost mut taken: int = 0;
        assert(old(self)@.take(0).len() == 0);
        assert(old(self)@.skip(0) == old(self)@);
        loop
            invariant
                0 <= taken <= old(self)@.len(),
                self@ == old(self)@.skip(taken),
                forall|i: int|
                    0 <= i < taken ==> (#[trigger] old(self)@[i] == Instruction::MoveRight || old(self)@[i] == Instruction::MoveLeft),
                offset == pointer_offset(old(self)@.take(taken)),
            decreases self@.len(),
        {
            let up = match self.current() {
                Instruction::MoveRight => true,
                Instruction::MoveLeft => false,
                _ => {
                    proof {
                        run_length_is(
                            old(self)@,
                            Instruction::MoveRight,
                            Instruction::MoveLeft,
                            taken,
                        );
                    }
                    return offset;
                },
            };
            proof {
                assert(self@[0] == old(self)@[taken]);
                net_offset_extends(
                    old(self)@,
                    Instruction::MoveRight,
                    Instruction::MoveLeft,
                    taken,
                );
                assert(old(self)@.skip(taken).drop_first() == old(self)@.skip(taken + 1));
            }
            offset = if up {
                offset.wrapping_add(1)
            } else {
                offset.wrapping_sub(1)
            };
            self.advance();
            proof {
                taken = taken + 1;
            }
        }
    }
}

} // verus!
