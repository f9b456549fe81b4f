use bf::builder::Builder;
use bf::codegen::Codegen;
use bf::lowering::StructuralError;
use bf::parser::Parser;
use bf::program::{Block, Operation, Program, Terminator, ValueRef, TAPE_CELLS};

fn compile(source: &str) -> Result<Program, StructuralError> {
    Codegen::new("source.bf", Parser::new(source)).build()
}

fn at(block: usize, index: usize) -> ValueRef {
    ValueRef { block, index }
}

const BASE: ValueRef = ValueRef { block: 0, index: 0 };

fn allocate() -> Operation {
    Operation::Allocate { count: 30000, size: 1 }
}

/// Load, add and store: what a run does that adds `amount` to the cell at
/// `pointer`, emitted from the place `index` of the block `block` on.
fn add(block: usize, index: usize, pointer: ValueRef, amount: u8) -> Vec<Operation> {
    vec![
        Operation::Load { pointer },
        Operation::Add { value: at(block, index), amount },
        Operation::Store { value: at(block, index + 1), pointer },
    ]
}

fn block(operations: Vec<Operation>, terminator: Terminator) -> Block {
    Block { operations, terminator: Some(terminator) }
}

/// The operations of a loop's test block, which is the block `entry`.
fn test(entry: usize) -> Vec<Operation> {
    vec![Operation::Join, Operation::Load { pointer: at(entry, 0) }]
}

/// A program of one block: the allocation, then `operations`, then the return.
fn straight(operations: Vec<Operation>) -> Program {
    let mut all = vec![allocate()];
    all.extend(operations);
    Program { blocks: vec![block(all, Terminator::Return)] }
}

/// What running a program did.
struct Run {
    output: Vec<u8>,
    tape: Vec<u8>,
    reads: usize,
    writes: usize,
}

/// Runs a program on a machine with one register for each value. At the end
/// of the input the input primitive gives 255.
fn run(program: &Program, input: &[u8]) -> Run {
    let mut tape: Vec<u8> = Vec::new();
    let mut registers: std::collections::HashMap<ValueRef, u64> = std::collections::HashMap::new();
    let mut output = Vec::new();
    let mut reads = 0;
    let mut writes = 0;
    let mut handed: Option<u64> = None;
    let mut current = 0;
    let mut steps = 0u64;
    loop {
        let block = &program.blocks[current];
        for (index, operation) in block.operations.iter().enumerate() {
            steps += 1;
            assert!(steps < 10_000_000, "the program does not end");
            let defined = match *operation {
                Operation::Allocate { count, size } => {
                    tape = vec![0; (count * size) as usize];
                    Some(0)
                }
                Operation::Join => Some(handed.take().expect("a jump hands a pointer over")),
                Operation::Offset { pointer, offset } => {
                    Some(registers[&pointer].wrapping_add(offset))
                }
                Operation::Load { pointer } => Some(u64::from(tape[registers[&pointer] as usize])),
                Operation::Add { value, amount } => {
                    Some(u64::from((registers[&value] as u8).wrapping_add(amount)))
                }
                Operation::Store { value, pointer } => {
                    tape[registers[&pointer] as usize] = registers[&value] as u8;
                    writes += 1;
                    None
                }
                Operation::Put { value } => {
                    output.push(registers[&value] as u8);
                    None
                }
                Operation::Get => {
                    let byte = input.get(reads).copied().unwrap_or(255);
                    reads += 1;
                    Some(u64::from(byte))
                }
            };
            if let Some(value) = defined {
                registers.insert(at(current, index), value);
            }
        }
        match block.terminator.expect("every block is sealed") {
            Terminator::Jump { target, pointer } => {
                handed = Some(registers[&pointer]);
                current = target;
            }
            Terminator::Branch { value, nonzero, zero } => {
                current = if registers[&value] != 0 { nonzero } else { zero };
            }
            Terminator::Return => return Run { output, tape, reads, writes },
        }
    }
}

fn run_source(source: &str, input: &[u8]) -> Run {
    run(&compile(source).expect("the brackets match"), input)
}

#[test]
fn the_tape_has_thirty_thousand_cells() {
    assert_eq!(TAPE_CELLS, 30000);
}

#[test]
fn the_empty_text_compiles_to_allocation_and_return() {
    let program = compile("").unwrap();
    assert_eq!(
        program,
        Program {
            blocks: vec![Block {
                operations: vec![Operation::Allocate { count: 30000, size: 1 }],
                terminator: Some(Terminator::Return),
            }],
        }
    );
    let done = run(&program, &[]);
    assert_eq!(done.output, Vec::<u8>::new());
    assert_eq!(done.reads, 0);
    assert_eq!(done.writes, 0);
    assert_eq!(done.tape, vec![0u8; 30000]);
}

#[test]
fn a_text_of_comments_compiles_as_the_empty_text() {
    assert_eq!(compile("nothing to do here\n"), compile(""));
}

#[test]
fn input_then_move_then_output_writes_the_new_cell() {
    let program = compile(",>.").unwrap();
    assert_eq!(
        program,
        straight(vec![
            Operation::Get,
            Operation::Store { value: at(0, 1), pointer: BASE },
            Operation::Offset { pointer: BASE, offset: 1 },
            Operation::Load { pointer: at(0, 3) },
            Operation::Put { value: at(0, 4) },
        ])
    );
    let done = run(&program, &[65]);
    assert_eq!(done.reads, 1);
    assert_eq!(done.output, vec![0]);
    assert_eq!(done.tape[0], 65);
    assert_eq!(done.tape[1], 0);
}

#[test]
fn the_multiplication_loop_leaves_sixteen() {
    let program = compile("++++[>++++<-]>.").unwrap();
    assert_eq!(
        program,
        Program {
            blocks: vec![
                block(
                    vec![
                        allocate(),
                        Operation::Load { pointer: BASE },
                        Operation::Add { value: at(0, 1), amount: 4 },
                        Operation::Store { value: at(0, 2), pointer: BASE },
                    ],
                    Terminator::Jump { target: 1, pointer: BASE },
                ),
                block(test(1), Terminator::Branch { value: at(1, 1), nonzero: 2, zero: 3 }),
                block(
                    vec![
                        Operation::Offset { pointer: at(1, 0), offset: 1 },
                        Operation::Load { pointer: at(2, 0) },
                        Operation::Add { value: at(2, 1), amount: 4 },
                        Operation::Store { value: at(2, 2), pointer: at(2, 0) },
                        Operation::Offset { pointer: at(2, 0), offset: u64::MAX },
                        Operation::Load { pointer: at(2, 4) },
                        Operation::Add { value: at(2, 5), amount: 255 },
                        Operation::Store { value: at(2, 6), pointer: at(2, 4) },
                    ],
                    Terminator::Jump { target: 1, pointer: at(2, 4) },
                ),
                block(
                    vec![
                        Operation::Offset { pointer: at(1, 0), offset: 1 },
                        Operation::Load { pointer: at(3, 0) },
                        Operation::Put { value: at(3, 1) },
                    ],
                    Terminator::Return,
                ),
            ],
        }
    );
    let done = run(&program, &[]);
    assert_eq!(done.output, vec![16]);
    assert_eq!(done.tape[0], 0);
    assert_eq!(done.tape[1], 16);
}

#[test]
fn an_unclosed_loop_is_an_unterminated_loop() {
    assert_eq!(compile("[+"), Err(StructuralError::UnterminatedLoop));
    assert_eq!(compile("["), Err(StructuralError::UnterminatedLoop));
    assert_eq!(compile("[[]"), Err(StructuralError::UnterminatedLoop));
    assert_eq!(compile("+[>[-]<"), Err(StructuralError::UnterminatedLoop));
    assert_eq!(compile("[][[]"), Err(StructuralError::UnterminatedLoop));
}

#[test]
fn a_close_without_an_open_loop_is_an_unopened_loop() {
    assert_eq!(compile("]"), Err(StructuralError::UnopenedLoop));
    assert_eq!(compile("+]"), Err(StructuralError::UnopenedLoop));
    assert_eq!(compile("[]]"), Err(StructuralError::UnopenedLoop));
    assert_eq!(compile("[-]>]<[+]"), Err(StructuralError::UnopenedLoop));
}

#[test]
fn the_first_imbalance_decides_the_error() {
    // as many opened as closed, but closed first
    assert_eq!(compile("]["), Err(StructuralError::UnopenedLoop));
    assert_eq!(compile("]+[[["), Err(StructuralError::UnopenedLoop));
    assert_eq!(compile("[[[]]]]["), Err(StructuralError::UnopenedLoop));
}

#[test]
fn balanced_brackets_compile() {
    for source in ["[]", "[[]]", "[][]", "[[][]]", "+[-[>]<[<]]", "[[[[[[[[]]]]]]]]"] {
        assert!(compile(source).is_ok(), "{}", source);
    }
}

#[test]
fn a_cell_run_is_one_addition() {
    assert_eq!(
        compile("+++").unwrap(),
        straight(add(0, 1, BASE, 3))
    );
    assert_eq!(
        compile("-").unwrap(),
        straight(add(0, 1, BASE, 255))
    );
    assert_eq!(
        compile(&"+".repeat(257)).unwrap(),
        straight(add(0, 1, BASE, 1))
    );
    assert_eq!(
        compile("++ - ++").unwrap(),
        straight(add(0, 1, BASE, 3))
    );
}

#[test]
fn a_canceling_cell_run_emits_nothing() {
    assert_eq!(compile("+-"), compile(""));
    assert_eq!(compile("-+"), compile(""));
    assert_eq!(compile("++--+-"), compile(""));
    assert_eq!(compile(&"+".repeat(256)), compile(""));
    assert_eq!(compile(&"-".repeat(512)), compile(""));
    assert_eq!(compile("+-."), compile("."));
    // the run that cancels still parts the moves on its two sides
    assert_eq!(
        compile(">-+<").unwrap(),
        straight(vec![
            Operation::Offset { pointer: BASE, offset: 1 },
            Operation::Offset { pointer: at(0, 1), offset: u64::MAX },
        ])
    );
    let done = run_source("+++-+---", &[]);
    assert_eq!(done.writes, 0);
    assert_eq!(done.tape[0], 0);
}

#[test]
fn a_canceling_run_in_front_changes_nothing() {
    assert_eq!(compile("+-+++"), compile("+++"));
    assert_eq!(compile("--++[>+<-]"), compile("[>+<-]"));
    assert_eq!(compile("<>>>"), compile(">>"));
    assert_eq!(compile("><,."), compile(",."));
}

#[test]
fn a_move_run_is_one_new_pointer() {
    assert_eq!(
        compile(">>>").unwrap(),
        straight(vec![Operation::Offset { pointer: BASE, offset: 3 }])
    );
    assert_eq!(
        compile("<").unwrap(),
        straight(vec![Operation::Offset { pointer: BASE, offset: u64::MAX }])
    );
    assert_eq!(
        compile(">><").unwrap(),
        straight(vec![Operation::Offset { pointer: BASE, offset: 1 }])
    );
}

#[test]
fn a_canceling_move_run_emits_nothing_and_keeps_the_pointer() {
    assert_eq!(compile("><"), compile(""));
    assert_eq!(compile("<<>>"), compile(""));
    assert_eq!(compile("><."), compile("."));
    assert_eq!(
        compile("<>+").unwrap(),
        straight(add(0, 1, BASE, 1))
    );
}

#[test]
fn each_move_run_defines_the_pointer_of_what_follows() {
    assert_eq!(
        compile("+>+>>-<.").unwrap(),
        straight(
            [
                add(0, 1, BASE, 1),
                vec![Operation::Offset { pointer: BASE, offset: 1 }],
                add(0, 5, at(0, 4), 1),
                vec![Operation::Offset { pointer: at(0, 4), offset: 2 }],
                add(0, 9, at(0, 8), 255),
                vec![
                    Operation::Offset { pointer: at(0, 8), offset: u64::MAX },
                    Operation::Load { pointer: at(0, 12) },
                    Operation::Put { value: at(0, 13) },
                ],
            ]
            .concat()
        )
    );
}

#[test]
fn output_and_input_are_not_folded() {
    assert_eq!(
        compile("..,,").unwrap(),
        straight(vec![
            Operation::Load { pointer: BASE },
            Operation::Put { value: at(0, 1) },
            Operation::Load { pointer: BASE },
            Operation::Put { value: at(0, 3) },
            Operation::Get,
            Operation::Store { value: at(0, 5), pointer: BASE },
            Operation::Get,
            Operation::Store { value: at(0, 7), pointer: BASE },
        ])
    );
}

#[test]
fn a_loop_is_a_test_block_a_body_and_an_exit() {
    assert_eq!(
        compile("[-]").unwrap(),
        Program {
            blocks: vec![
                block(vec![allocate()], Terminator::Jump { target: 1, pointer: BASE }),
                block(test(1), Terminator::Branch { value: at(1, 1), nonzero: 2, zero: 3 }),
                block(add(2, 0, at(1, 0), 255), Terminator::Jump { target: 1, pointer: at(1, 0) }),
                block(vec![], Terminator::Return),
            ],
        }
    );
}

#[test]
fn nested_loops_close_innermost_first() {
    assert_eq!(
        compile("[[.],]").unwrap(),
        Program {
            blocks: vec![
                block(vec![allocate()], Terminator::Jump { target: 1, pointer: BASE }),
                block(test(1), Terminator::Branch { value: at(1, 1), nonzero: 2, zero: 3 }),
                block(vec![], Terminator::Jump { target: 4, pointer: at(1, 0) }),
                block(vec![], Terminator::Return),
                block(test(4), Terminator::Branch { value: at(4, 1), nonzero: 5, zero: 6 }),
                block(
                    vec![Operation::Load { pointer: at(4, 0) }, Operation::Put { value: at(5, 0) }],
                    Terminator::Jump { target: 4, pointer: at(4, 0) },
                ),
                block(
                    vec![Operation::Get, Operation::Store { value: at(6, 0), pointer: at(4, 0) }],
                    Terminator::Jump { target: 1, pointer: at(4, 0) },
                ),
            ],
        }
    );
}

#[test]
fn a_loop_that_is_skipped_leaves_the_pointer_usable() {
    let done = run_source("[>+<-]>+.", &[]);
    assert_eq!(done.output, vec![1]);
    assert_eq!(done.tape[1], 1);
}

#[test]
fn a_loop_that_moves_the_pointer_tests_the_moved_cell() {
    // three cells set, then back to the first and right to the first zero
    let done = run_source("+>+>+<<[>]++.", &[]);
    assert_eq!(done.output, vec![2]);
    assert_eq!(&done.tape[..5], &[1, 1, 1, 2, 0]);
    // and left again to the zero in front of the marked cells
    let back = run_source(">+>+>+[<]++.", &[]);
    assert_eq!(back.output, vec![2]);
    assert_eq!(&back.tape[..5], &[2, 1, 1, 1, 0]);
}

#[test]
fn clearing_a_cell_ends_with_zero() {
    let done = run_source("+++++[-].", &[]);
    assert_eq!(done.output, vec![0]);
}

#[test]
fn input_is_echoed_until_a_zero_byte() {
    let done = run_source(",[.,]", &[104, 105, 33, 0, 7]);
    assert_eq!(done.output, vec![104, 105, 33]);
    assert_eq!(done.reads, 4);
}

#[test]
fn cells_wrap_when_the_program_runs() {
    let done = run_source("-.++.", &[]);
    assert_eq!(done.output, vec![255, 1]);
}

#[test]
fn nested_multiplication_runs() {
    // 2 * 3 * 4 into the third cell
    let done = run_source("++[>+++[>++++<-]<-]>>.", &[]);
    assert_eq!(done.output, vec![24]);
}

#[test]
fn a_greeting_is_printed() {
    let source = "++++++++[>++++[>++>+++>+++>+<<<<-]>+>+>->>+[<]<-]>>.>---.+++++++..+++.\
                  >>.<-.<.+++.------.--------.>>+.>++.";
    let done = run_source(source, &[]);
    assert_eq!(done.output, b"Hello World!\n".to_vec());
}

#[test]
fn the_object_file_is_named_after_the_source_file() {
    let codegen = Codegen::new("hello.bf", Parser::new("+"));
    assert_eq!(codegen.object_filename(), "hello.bf.o");
    let bare = Codegen::new("program", Parser::new(""));
    assert_eq!(bare.object_filename(), "program.o");
    let empty = Codegen::new("", Parser::new(""));
    assert_eq!(empty.object_filename(), ".o");
}

#[test]
fn the_generator_goes_on_where_the_parser_stands() {
    let mut parser = Parser::new("]+");
    parser.advance();
    assert_eq!(
        Codegen::new("rest.bf", parser).build().unwrap(),
        straight(add(0, 1, BASE, 1))
    );
}

#[test]
fn the_builder_emits_what_it_is_told() {
    let program = Builder::new()
        .add_to_cell(3)
        .add_to_cell(0)
        .offset_pointer(2)
        .offset_pointer(0)
        .output()
        .input()
        .finish()
        .unwrap();
    assert_eq!(
        program,
        straight(
            [
                add(0, 1, BASE, 3),
                vec![
                    Operation::Offset { pointer: BASE, offset: 2 },
                    Operation::Load { pointer: at(0, 4) },
                    Operation::Put { value: at(0, 5) },
                    Operation::Get,
                    Operation::Store { value: at(0, 7), pointer: at(0, 4) },
                ],
            ]
            .concat()
        )
    );
}

#[test]
fn the_builder_reports_loops_that_do_not_match() {
    assert_eq!(Builder::new().close_loop().err(), Some(StructuralError::UnopenedLoop));
    assert_eq!(Builder::new().open_loop().finish(), Err(StructuralError::UnterminatedLoop));
    let closed = Builder::new().open_loop().close_loop().ok().unwrap();
    assert_eq!(closed.finish(), compile("[]"));
    let twice = Builder::new().open_loop().close_loop().ok().unwrap().close_loop();
    assert_eq!(twice.err(), Some(StructuralError::UnopenedLoop));
}

/// Whether `value` is defined, as a pointer or as a byte, before the place
/// `index` of the block `block`.
fn defined_before(
    program: &Program,
    value: ValueRef,
    pointer: bool,
    block: usize,
    index: usize,
) -> bool {
    let defined = program.blocks.get(value.block).and_then(|b| b.operations.get(value.index));
    let kind_fits = match defined {
        Some(Operation::Allocate { .. } | Operation::Join | Operation::Offset { .. }) => pointer,
        Some(Operation::Load { .. } | Operation::Add { .. } | Operation::Get) => !pointer,
        _ => false,
    };
    kind_fits && (value.block < block || (value.block == block && value.index < index))
}

fn is_well_formed(program: &Program) -> bool {
    let count = program.blocks.len();
    let mut fine = program.blocks[0].operations.first() == Some(&allocate());
    for (number, block) in program.blocks.iter().enumerate() {
        for (index, operation) in block.operations.iter().enumerate() {
            let before = |value, pointer| defined_before(program, value, pointer, number, index);
            fine &= match *operation {
                Operation::Allocate { .. } | Operation::Get => true,
                Operation::Join => index == 0,
                Operation::Offset { pointer, .. } | Operation::Load { pointer } => {
                    before(pointer, true)
                }
                Operation::Add { value, .. } | Operation::Put { value } => before(value, false),
                Operation::Store { value, pointer } => before(value, false) && before(pointer, true),
            };
        }
        let end = block.operations.len();
        fine &= match block.terminator {
            None => false,
            Some(Terminator::Return) => true,
            Some(Terminator::Jump { target, pointer }) => {
                target < count
                    && program.blocks[target].operations.first() == Some(&Operation::Join)
                    && defined_before(program, pointer, true, number, end)
            }
            Some(Terminator::Branch { value, nonzero, zero }) => {
                nonzero < count && zero < count && defined_before(program, value, false, number, end)
            }
        };
    }
    fine
}

#[test]
fn compiled_programs_are_well_formed() {
    for source in [
        "",
        "+",
        ",>.",
        "++++[>++++<-]>.",
        "[[.],]",
        "+>+>+<<[>]++.",
        ">+>+>+[<]++.",
        "[-]>[-]<[>+<-]",
        "++[>+++[>++++<-]<-]>>.",
        "[][][[]][[[]]]",
        "-[>-[>-[>-<[-]]<[-]]<[-]],.",
    ] {
        assert!(is_well_formed(&compile(source).unwrap()), "{}", source);
    }
}

#[test]
fn the_test_of_well_formedness_tells_a_broken_program() {
    let mut program = compile(",>.").unwrap();
    assert!(is_well_formed(&program));
    // the output now reads a byte that is defined after it
    program.blocks[0].operations[5] = Operation::Put { value: at(0, 5) };
    assert!(!is_well_formed(&program));
    let mut unsealed = compile("+").unwrap();
    unsealed.blocks[0].terminator = None;
    assert!(!is_well_formed(&unsealed));
}
