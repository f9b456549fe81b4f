//! The code generator: drives the coalescer instruction by instruction and
//! emits the program.
use crate::builder::Builder;
use crate::coalescer::Coalescer;
use crate::lowering::{
    balanced, closes_only_open_loops, compile, consumed, consumed_bounds, depth, generate, step,
    Emission, StructuralError,
};
use crate::parser::{Instruction, Parser};
use crate::program::{well_formed, Program};
use crate::structure::compiled_program_is_well_formed;
use crate::theorems::compiles_iff_balanced;
use vstd::prelude::*;
use vstd::string::StringExecFns;

verus! {

/// A single-use compiler of one source text. It holds the text's instructions
/// and the program's entry block, in which the tape is allocated; [`build`]
/// consumes it.
///
/// [`build`]: Codegen::build
pub struct Codegen<'c> {
    filename: &'c str,
    instructions: Coalescer<'c>,
    builder: Builder,
}

impl<'c> Codegen<'c> {
    #[verifier::type_invariant]
    spec fn nothing_emitted(&self) -> bool {
        self.builder@ == Emission::start()
    }

    /// The name of the source file.
    pub closed spec fn name(&self) -> Seq<char> {
        self.filename@
    }

    /// The instructions of the text.
    pub closed spec fn pending(&self) -> Seq<Instruction> {
        self.instructions@
    }

    /// A generator for the text that `parser` has not read yet. The entry block
    /// exists and allocates the tape, and the pointer is at its first cell.
    pub fn new(filename: &'c str, parser: Parser<'c>) -> (codegen: Self)
        ensures
            codegen.name() == filename@,
            codegen.pending() == parser@,
    {
        Codegen { filename, instructions: Coalescer::new(parser), builder: Builder::new() }
    }

    /// The name of the object file: the source file's name with `.o` after it.
    pub fn object_filename(&self) -> (name: String)
        ensures
            name@ == self.name() + ".o"@,
    {
        let mut name = String::from_str(self.filename);
        name.append(".o");
        name
    }

    /// Lowers the instruction under the cursor, or the whole run that it starts,
    /// into `builder` and moves the cursor past it. A loop's end without an open
    /// loop is an error. At the end of the text nothing is left to do.
    fn codegen_for_next_instruction(instructions: &mut Coalescer<'c>, builder: Builder) -> (outcome:
        Result<Builder, StructuralError>)
        ensures
            old(instructions)@.len() == 0 ==> outcome is Ok && outcome->Ok_0@ == builder@
                && final(instructions)@ == old(instructions)@,
            old(instructions)@.len() > 0 ==> match step(builder@, old(instructions)@) {
                Ok(next) => outcome is Ok && outcome->Ok_0@ == next && final(instructions)@
                    == old(instructions)@.skip(consumed(old(instructions)@) as int),
                Err(error) => outcome is Err && outcome->Err_0 == error,
            },
    {
        let ghost stream = instructions@;
        assert(stream.len() > 0 ==> stream.skip(1) == stream.drop_first());
        let builder = match instructions.current() {
            Instruction::Output => {
                instructions.advance();
                builder.output()
            },
            Instruction::Input => {
                instructions.advance();
                builder.input()
            },
            Instruction::Advance | Instruction::Decrease => {
                let amount = instructions.fold_cells();
                builder.add_to_cell(amount)
            },
            Instruction::MoveRight | Instruction::MoveLeft => {
                let offset = instructions.fold_moves();
                builder.offset_pointer(offset)
            },
            Instruction::StartLoop => {
                instructions.advance();
                builder.open_loop()
            },
            Instruction::CloseLoop => {
                instructions.advance();
                match builder.close_loop() {
                    Ok(closed) => closed,
                    Err(error) => {
                        return Err(error);
                    },
                }
            },
            Instruction::EndOfInput => builder,
        };
        Ok(builder)
    }

    /// Lowers the whole text and ends the program with a return. The outcome is
    /// the program that the text compiles to, which is well formed; or, where
    /// the brackets of the text are not balanced, the error: the unopened loop
    /// where a loop is closed that is not open, else the unterminated loop.
    #[verifier::loop_isolation(false)]
    pub fn build(self) -> (outcome: Result<Program, StructuralError>)
        ensures
            match compile(self.pending()) {
                Ok(blocks) => outcome matches Ok(program) && program@ == blocks && well_formed(
                    blocks,
                ),
                Err(error) => outcome is Err && outcome->Err_0 == error,
            },
            outcome is Ok <==> balanced(self.pending()),
            outcome is Err && outcome->Err_0 == StructuralError::UnopenedLoop
                <==> !closes_only_open_loops(self.pending()),
            outcome is Err && outcome->Err_0 == StructuralError::UnterminatedLoop
                <==> closes_only_open_loops(self.pending()) && depth(self.pending()) > 0,
    {
        proof {
            use_type_invariant(&self);
            self.instructions.holds_commands();
            compiles_iff_balanced(self.pending());
            compiled_program_is_well_formed(self.pending());
        }
        let Codegen { filename: _, mut instructions, mut builder } = self;
        while instructions.current() != Instruction::EndOfInput
            invariant
                generate(builder@, instructions@) == generate(Emission::start(), self.pending()),
            decreases instructions@.len(),
        {
            proof {
                consumed_bounds(instructions@);
            }
            builder = match Self::codegen_for_next_instruction(&mut instructions, builder) {
                Ok(next) => next,
                Err(error) => {
                    return Err(error);
                },
            };
        }
        let outcome = builder.finish();
        proof {
            if outcome is Ok {
                outcome->Ok_0.is_representable();
            }
        }
        outcome
    }
}

} // verus!
