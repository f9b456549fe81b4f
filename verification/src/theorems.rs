//! What holds of every program that the generator emits.
use crate::coalescer::{
    cell_amount, net_offset, occurrences, occurrences_of_absent, occurrences_of_concatenation,
    pointer_offset, run_length, run_length_bounds, run_of_concatenation,
};
use crate::lowering::{
    balanced, closes_only_open_loops, compile, compile_from, consumed, consumed_bounds, depth,
    generate, step, Emission, StructuralError,
};
use crate::parser::Instruction;
use crate::program::{BlockView, Operation, Terminator, TAPE_CELLS};
use vstd::prelude::*;

verus! {

/// A run of increments and decrements is lowered to the addition of its net
/// offset modulo 256, the count of increments less the count of decrements;
/// where that is zero, to nothing.
pub proof fn cell_run_adds_net_offset(emission: Emission, stream: Seq<Instruction>)
    requires
        stream.len() > 0,
        stream[0] == Instruction::Advance || stream[0] == Instruction::Decrease,
    ensures
        ({
            let run = stream.take(
                run_length(stream, Instruction::Advance, Instruction::Decrease) as int,
            );
            let net = occurrences(run, Instruction::Advance) - occurrences(
                run,
                Instruction::Decrease,
            );
            &&& step(emission, stream) == Ok::<Emission, StructuralError>(
                emission.add_to_cell((net % 256) as u8),
            )
            &&& net % 256 == 0 ==> step(emission, stream) == Ok::<Emission, StructuralError>(
                emission,
            )
            &&& net % 256 != 0 ==> step(emission, stream) == Ok::<Emission, StructuralError>(
                emission.emit(Operation::Load { pointer: emission.pointer }).emit(
                    Operation::Add { value: emission.next_value(), amount: (net % 256) as u8 },
                ).emit(
                    Operation::Store {
                        value: emission.emit(
                            Operation::Load { pointer: emission.pointer },
                        ).next_value(),
                        pointer: emission.pointer,
                    },
                ),
            )
        }),
{
}

/// A run of moves is lowered to one pointer offset by its net offset modulo two
/// to the pointer width, the count of moves right less the count of moves left,
/// and the pointer it defines is the current one from then on; where the net
/// offset is zero, to nothing.
pub proof fn move_run_offsets_by_net_offset(emission: Emission, stream: Seq<Instruction>)
    requires
        stream.len() > 0,
        stream[0] == Instruction::MoveRight || stream[0] == Instruction::MoveLeft,
    ensures
        ({
            let run = stream.take(
                run_length(stream, Instruction::MoveRight, Instruction::MoveLeft) as int,
            );
            let net = occurrences(run, Instruction::MoveRight) - occurrences(
                run,
                Instruction::MoveLeft,
            );
            &&& step(emission, stream) == Ok::<Emission, StructuralError>(
                emission.offset_pointer((net % 0x1_0000_0000_0000_0000) as u64),
            )
            &&& net % 0x1_0000_0000_0000_0000 == 0 ==> step(emission, stream) == Ok::<
                Emission,
                StructuralError,
            >(emission)
            &&& net % 0x1_0000_0000_0000_0000 != 0 ==> step(emission, stream) == Ok::<
                Emission,
                StructuralError,
            >(
                Emission {
                    pointer: emission.next_value(),
                    ..emission.emit(
                        Operation::Offset {
                            pointer: emission.pointer,
                            offset: (net % 0x1_0000_0000_0000_0000) as u64,
                        },
                    )
                },
            )
        }),
{
}

/// Increments and decrements that cancel change nothing: with such a stretch
/// in front, a stream is lowered as it is without it.
pub proof fn canceling_cell_run_vanishes(
    emission: Emission,
    run: Seq<Instruction>,
    rest: Seq<Instruction>,
)
    requires
        forall|i: int|
            0 <= i < run.len() ==> (#[trigger] run[i] == Instruction::Advance || run[i]
                == Instruction::Decrease),
        net_offset(run, Instruction::Advance, Instruction::Decrease) % 256 == 0,
    ensures
        generate(emission, run + rest) == generate(emission, rest),
        compile_from(emission, run + rest) == compile_from(emission, rest),
{
    let stream = run + rest;
    if run.len() == 0 {
        assert(stream == rest);
    } else {
        let up = Instruction::Advance;
        let down = Instruction::Decrease;
        assert(stream[0] == run[0]);
        run_of_concatenation(run, rest, up, down);
        run_length_bounds(rest, up, down);
        let behind = run_length(rest, up, down) as int;
        assert(cell_amount(stream.take(consumed(stream) as int)) == cell_amount(
            rest.take(behind),
        ));
        if behind == 0 {
            assert(rest.take(0).len() == 0);
            assert(rest.skip(0) == rest);
            assert(step(emission, stream) == Ok::<Emission, StructuralError>(emission));
        } else {
            assert(rest[0] == up || rest[0] == down);
        }
    }
}

/// Moves right and left that cancel change nothing: with such a stretch in
/// front, a stream is lowered as it is without it.
pub proof fn canceling_move_run_vanishes(
    emission: Emission,
    run: Seq<Instruction>,
    rest: Seq<Instruction>,
)
    requires
        forall|i: int|
            0 <= i < run.len() ==> (#[trigger] run[i] == Instruction::MoveRight || run[i]
                == Instruction::MoveLeft),
        net_offset(run, Instruction::MoveRight, Instruction::MoveLeft) % 0x1_0000_0000_0000_0000
            == 0,
    ensures
        generate(emission, run + rest) == generate(emission, rest),
        compile_from(emission, run + rest) == compile_from(emission, rest),
{
    let stream = run + rest;
    if run.len() == 0 {
        assert(stream == rest);
    } else {
        let up = Instruction::MoveRight;
        let down = Instruction::MoveLeft;
        assert(stream[0] == run[0]);
        run_of_concatenation(run, rest, up, down);
        run_length_bounds(rest, up, down);
        let behind = run_length(rest, up, down) as int;
        assert(pointer_offset(stream.take(consumed(stream) as int)) == pointer_offset(
            rest.take(behind),
        ));
        if behind == 0 {
            assert(rest.take(0).len() == 0);
            assert(rest.skip(0) == rest);
            assert(step(emission, stream) == Ok::<Emission, StructuralError>(emission));
        } else {
            assert(rest[0] == up || rest[0] == down);
        }
    }
}

/// A text of nothing but as many increments as decrements compiles to the
/// program of the empty text: it allocates the tape and returns, and touches no
/// cell.
pub proof fn canceling_text_compiles_to_nothing(run: Seq<Instruction>)
    requires
        forall|i: int|
            0 <= i < run.len() ==> (#[trigger] run[i] == Instruction::Advance || run[i]
                == Instruction::Decrease),
        occurrences(run, Instruction::Advance) == occurrences(run, Instruction::Decrease),
    ensures
        compile(run) == compile(Seq::empty()),
        compile(run) == Ok::<Seq<BlockView>, StructuralError>(
            seq![
                BlockView {
                    operations: seq![Operation::Allocate { count: TAPE_CELLS, size: 1 }],
                    terminator: Some(Terminator::Return),
                },
            ],
        ),
{
    canceling_cell_run_vanishes(Emission::start(), run, Seq::empty());
    assert(run + Seq::<Instruction>::empty() == run);
    assert(Emission::start().seal(Terminator::Return).blocks =~= seq![
        BlockView {
            operations: seq![Operation::Allocate { count: TAPE_CELLS, size: 1 }],
            terminator: Some(Terminator::Return),
        },
    ]);
}

/// The depth of a stretch without brackets is zero.
proof fn depth_without_brackets(stream: Seq<Instruction>)
    requires
        forall|i: int|
            0 <= i < stream.len() ==> (#[trigger] stream[i] != Instruction::StartLoop && stream[i]
                != Instruction::CloseLoop),
    ensures
        depth(stream) == 0,
{
    occurrences_of_absent(stream, Instruction::StartLoop);
    occurrences_of_absent(stream, Instruction::CloseLoop);
}

/// The depth of a stream is that of a prefix and of what follows it.
proof fn depth_of_split(stream: Seq<Instruction>, length: int, longer: int)
    requires
        0 <= length <= longer <= stream.len(),
    ensures
        depth(stream.take(longer)) == depth(stream.take(length)) + depth(
            stream.skip(length).take(longer - length),
        ),
{
    let front = stream.take(length);
    let back = stream.skip(length).take(longer - length);
    assert(stream.take(longer) == front + back);
    occurrences_of_concatenation(front, back, Instruction::StartLoop);
    occurrences_of_concatenation(front, back, Instruction::CloseLoop);
}

/// What one step reads changes the number of open loops by its depth, and no
/// prefix of it closes a loop but the step that fails.
proof fn step_tracks_depth(emission: Emission, stream: Seq<Instruction>)
    requires
        stream.len() > 0,
        stream[0] != Instruction::EndOfInput,
    ensures
        1 <= consumed(stream) <= stream.len(),
        match step(emission, stream) {
            Ok(next) => {
                &&& next.frames.len() == emission.frames.len() + depth(
                    stream.take(consumed(stream) as int),
                )
                &&& forall|length: int|
                    0 <= length <= consumed(stream) ==> emission.frames.len() + depth(
                        #[trigger] stream.take(length),
                    ) >= 0
            },
            Err(error) => {
                &&& error == StructuralError::UnopenedLoop
                &&& emission.frames.len() + depth(stream.take(1)) < 0
            },
        },
{
    consumed_bounds(stream);
    let taken = consumed(stream) as int;
    let first = stream.take(1);
    assert(stream.take(0).len() == 0);
    assert(first.drop_last().len() == 0);
    assert(first.last() == stream[0]);
    assert(depth(stream.take(0)) == 0);
    assert(depth(first) == match stream[0] {
        Instruction::StartLoop => 1int,
        Instruction::CloseLoop => -1int,
        _ => 0int,
    }) by {
        reveal_with_fuel(occurrences, 2);
    }
    match stream[0] {
        Instruction::Advance | Instruction::Decrease => {
            run_length_bounds(stream, Instruction::Advance, Instruction::Decrease);
            assert forall|length: int| 0 <= length <= taken implies depth(
                #[trigger] stream.take(length),
            ) == 0 by {
                depth_without_brackets(stream.take(length));
            }
        },
        Instruction::MoveRight | Instruction::MoveLeft => {
            run_length_bounds(stream, Instruction::MoveRight, Instruction::MoveLeft);
            assert forall|length: int| 0 <= length <= taken implies depth(
                #[trigger] stream.take(length),
            ) == 0 by {
                depth_without_brackets(stream.take(length));
            }
        },
        _ => {
            assert forall|length: int| 0 <= length <= 1 implies (#[trigger] stream.take(length)
                == stream.take(0) || stream.take(length) == first) by {
                if length == 0 {
                } else {
                    assert(length == 1);
                }
            }
        },
    }
}

/// From any emission: the generator fails on exactly the streams of which a
/// prefix closes more loops than are open, and else ends with as many loops
/// open as before and the stream's depth.
pub proof fn generate_tracks_depth(emission: Emission, stream: Seq<Instruction>)
    requires
        forall|i: int| 0 <= i < stream.len() ==> #[trigger] stream[i] != Instruction::EndOfInput,
    ensures
        match generate(emission, stream) {
            Ok(last) => {
                &&& last.frames.len() == emission.frames.len() + depth(stream)
                &&& forall|length: int|
                    0 <= length <= stream.len() ==> emission.frames.len() + depth(
                        #[trigger] stream.take(length),
                    ) >= 0
            },
            Err(error) => {
                &&& error == StructuralError::UnopenedLoop
                &&& exists|length: int|
                    0 <= length <= stream.len() && emission.frames.len() + depth(
                        #[trigger] stream.take(length),
                    ) < 0
            },
        },
    decreases stream.len(),
{
    if stream.len() == 0 {
        assert(stream.take(0) == stream);
    } else {
        step_tracks_depth(emission, stream);
        let taken = consumed(stream) as int;
        let rest = stream.skip(taken);
        match step(emission, stream) {
            Err(error) => {
                assert(emission.frames.len() + depth(stream.take(1)) < 0);
            },
            Ok(next) => {
                assert forall|i: int| 0 <= i < rest.len() implies #[trigger] rest[i]
                    != Instruction::EndOfInput by {
                    assert(rest[i] == stream[i + taken]);
                }
                generate_tracks_depth(next, rest);
                match generate(next, rest) {
                    Ok(last) => {
                        depth_of_split(stream, taken, stream.len() as int);
                        assert(stream.take(stream.len() as int) == stream);
                        assert(rest.take(rest.len() as int) == rest);
                        assert forall|length: int| 0 <= length <= stream.len() implies emission.frames.len()
                            + depth(#[trigger] stream.take(length)) >= 0 by {
                            if length > taken {
                                depth_of_split(stream, taken, length);
                                assert(next.frames.len() + depth(rest.take(length - taken)) >= 0);
                            }
                        }
                    },
                    Err(error) => {
                        let behind = choose|length: int|
                            0 <= length <= rest.len() && next.frames.len() + depth(
                                #[trigger] rest.take(length),
                            ) < 0;
                        depth_of_split(stream, taken, taken + behind);
                        assert(emission.frames.len() + depth(stream.take(taken + behind)) < 0);
                    },
                }
            },
        }
    }
}

/// A text compiles exactly when its brackets match. Where they do not, the
/// error is the unopened loop where a prefix of the text closes more loops than
/// it opens, and else the unterminated loop.
pub proof fn compiles_iff_balanced(stream: Seq<Instruction>)
    requires
        forall|i: int| 0 <= i < stream.len() ==> #[trigger] stream[i] != Instruction::EndOfInput,
    ensures
        compile(stream) is Ok <==> balanced(stream),
        compile(stream) == Err::<Seq<BlockView>, StructuralError>(
            StructuralError::UnopenedLoop,
        ) <==> !closes_only_open_loops(stream),
        compile(stream) == Err::<Seq<BlockView>, StructuralError>(
            StructuralError::UnterminatedLoop,
        ) <==> closes_only_open_loops(stream) && depth(stream) > 0,
{
    generate_tracks_depth(Emission::start(), stream);
    assert(stream.take(stream.len() as int) == stream);
}

} // verus!
