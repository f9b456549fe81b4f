//! The scanner: from source characters to instructions.
//!
//! The scanner walks the bytes of the text's UTF-8 encoding and steps from
//! character to character by the width that each leading byte announces. A
//! command is a character of one byte, so the leading byte alone tells whether
//! a character is one.
use vstd::prelude::*;
use vstd::utf8::*;

verus! {

/// One command of the language, or the marker that ends the stream.
#[derive(Clone, Copy, Debug, PartialEq, Eq, Structural)]
pub enum Instruction {
    /// `<`: the pointer goes one cell to the left.
    MoveLeft,
    /// `>`: the pointer goes one cell to the right.
    MoveRight,
    /// `[`: a loop starts; it is passed over where the current cell is zero.
    StartLoop,
    /// `]`: a loop ends; it is gone through again unless the current cell is zero.
    CloseLoop,
    /// `+`: the current cell grows by one.
    Advance,
    /// `-`: the current cell shrinks by one.
    Decrease,
    /// `.`: the current cell is written out.
    Output,
    /// `,`: the current cell is read in.
    Input,
    /// The text is exhausted. Also the default.
    EndOfInput,
}

impl Default for Instruction {
    fn default() -> (instruction: Self)
        ensures
            instruction == Instruction::EndOfInput,
    {
        Self::EndOfInput
    }
}

/// The instruction that a character stands for, if it stands for one.
pub open spec fn recognize(c: char) -> Option<Instruction> {
    if c == '+' {
        Some(Instruction::Advance)
    } else if c == '-' {
        Some(Instruction::Decrease)
    } else if c == '>' {
        Some(Instruction::MoveRight)
    } else if c == '<' {
        Some(Instruction::MoveLeft)
    } else if c == '.' {
        Some(Instruction::Output)
    } else if c == ',' {
        Some(Instruction::Input)
    } else if c == '[' {
        Some(Instruction::StartLoop)
    } else if c == ']' {
        Some(Instruction::CloseLoop)
    } else {
        None
    }
}

/// The instructions of a text, in order: one for each recognized character.
pub open spec fn instructions(text: Seq<char>) -> Seq<Instruction>
    decreases text.len(),
{
    if text.len() == 0 {
        Seq::empty()
    } else {
        match recognize(text[0]) {
            Some(instruction) => seq![instruction] + instructions(text.drop_first()),
            None => instructions(text.drop_first()),
        }
    }
}

/// What is left of a text once its first recognized character has been read:
/// nothing, where no character of it is recognized.
pub open spec fn after_first_instruction(text: Seq<char>) -> Seq<char>
    decreases text.len(),
{
    if text.len() == 0 {
        text
    } else if recognize(text[0]) is Some {
        text.drop_first()
    } else {
        after_first_instruction(text.drop_first())
    }
}

/// A text without a recognized character holds no instruction.
pub proof fn unrecognized_text_is_empty(text: Seq<char>)
    requires
        forall|i: int| 0 <= i < text.len() ==> recognize(#[trigger] text[i]) is None,
    ensures
        instructions(text) == Seq::<Instruction>::empty(),
    decreases text.len(),
{
    if text.len() > 0 {
        let rest = text.drop_first();
        assert forall|i: int| 0 <= i < rest.len() implies recognize(#[trigger] rest[i]) is None by {
            assert(rest[i] == text[i + 1]);
        }
        unrecognized_text_is_empty(rest);
    }
}

/// Reading the first instruction of a text leaves the instructions that follow
/// it.
pub proof fn instructions_after_first(text: Seq<char>)
    ensures
        instructions(text).len() > 0 ==> instructions(after_first_instruction(text))
            == instructions(text).drop_first(),
        instructions(text).len() == 0 ==> after_first_instruction(text).len() == 0,
    decreases text.len(),
{
    if text.len() > 0 {
        match recognize(text[0]) {
            Some(instruction) => {
                assert((seq![instruction] + instructions(text.drop_first())).drop_first()
                    == instructions(text.drop_first()));
            },
            None => {
                instructions_after_first(text.drop_first());
            },
        }
    }
}

/// [`Instruction::EndOfInput`] stands for no character, so no scanned stream
/// holds it.
pub proof fn scanned_instructions_are_commands(text: Seq<char>)
    ensures
        forall|i: int|
            0 <= i < instructions(text).len() ==> #[trigger] instructions(text)[i]
                != Instruction::EndOfInput,
    decreases text.len(),
{
    if text.len() > 0 {
        scanned_instructions_are_commands(text.drop_first());
    }
}

/// The width in bytes of the character that a leading byte starts.
spec fn leading_width(byte: u8) -> int {
    if byte < 0x80 {
        1
    } else if byte < 0xe0 {
        2
    } else if byte < 0xf0 {
        3
    } else {
        4
    }
}

/// The first character of valid encoded text, read off its leading byte: the
/// character is that byte where the byte is below 0x80, and is no command where
/// it is not; and the character's width is the one that the leading byte
/// announces.
proof fn first_character_by_leading_byte(bytes: Seq<u8>)
    requires
        bytes.len() > 0,
        valid_utf8(bytes),
    ensures
        decode_utf8(bytes).len() > 0,
        decode_utf8(bytes).drop_first() == decode_utf8(pop_first_scalar(bytes)),
        valid_utf8(pop_first_scalar(bytes)),
        recognize(decode_utf8(bytes)[0]) == recognize(bytes[0] as char),
        length_of_first_scalar(bytes) == leading_width(bytes[0]),
        length_of_first_scalar(bytes) <= bytes.len(),
        pop_first_scalar(bytes) == bytes.skip(length_of_first_scalar(bytes)),
{
    let first = decode_utf8(bytes)[0];
    let scalar = decode_first_scalar(bytes);
    assert(decode_utf8(bytes) == seq![scalar as char] + decode_utf8(pop_first_scalar(bytes)));
    assert(decode_utf8(bytes).drop_first() == decode_utf8(pop_first_scalar(bytes)));
    assert(first == scalar as char);
    let byte = bytes[0];
    if byte < 0x80 {
        assert(scalar == byte) by {
            assert(byte < 0x80 ==> (byte & 0x7f) as u32 == byte as u32) by (bit_vector);
        }
    } else if recognize(first) is Some {
        let encoded = encode_scalar(first as u32);
        decode_utf8_first_scalar(bytes);
        assert(encoded[0] == bytes[0]);
        assert(has_width_1_encoding(first as u32));
        assert(leading_byte_width_1(first as u32) < 0x80) by {
            let wide = first as u32;
            assert(((wide & 0x7f) as u8) < 0x80) by (bit_vector);
        }
    }
}

fn width(byte: u8) -> (width: usize)
    ensures
        width == leading_width(byte),
{
    if byte < 0x80 {
        1
    } else if byte < 0xe0 {
        2
    } else if byte < 0xf0 {
        3
    } else {
        4
    }
}

fn classify(byte: u8) -> (instruction: Option<Instruction>)
    ensures
        instruction == recognize(byte as char),
{
    if byte == '+' as u8 {
        Some(Instruction::Advance)
    } else if byte == '-' as u8 {
        Some(Instruction::Decrease)
    } else if byte == '>' as u8 {
        Some(Instruction::MoveRight)
    } else if byte == '<' as u8 {
        Some(Instruction::MoveLeft)
    } else if byte == '.' as u8 {
        Some(Instruction::Output)
    } else if byte == ',' as u8 {
        Some(Instruction::Input)
    } else if byte == '[' as u8 {
        Some(Instruction::StartLoop)
    } else if byte == ']' as u8 {
        Some(Instruction::CloseLoop)
    } else {
        None
    }
}

/// A cursor over a borrowed source text.
pub struct Parser<'c> {
    source: &'c [u8],
    position: usize,
}

impl<'c> View for Parser<'c> {
    type V = Seq<Instruction>;

    /// The instructions that are still to come.
    open spec fn view(&self) -> Seq<Instruction> {
        instructions(self.unread())
    }
}

impl<'c> Parser<'c> {
    /// The text that has not been read yet.
    pub closed spec fn unread(&self) -> Seq<char> {
        decode_utf8(self.source@.skip(self.position as int))
    }

    #[verifier::type_invariant]
    spec fn at_a_character(&self) -> bool {
        &&& self.position <= self.source@.len()
        &&& valid_utf8(self.source@.skip(self.position as int))
    }

    /// A cursor at the start of `contents`. What it will read are the
    /// instructions of the text's characters: none, where no character of the
    /// text is recognized.
    pub fn new(contents: &'c str) -> (parser: Self)
        ensures
            parser.unread() == contents@,
            parser@ == instructions(contents@),
            (forall|i: int| 0 <= i < contents@.len() ==> recognize(#[trigger] contents@[i]) is None)
                ==> parser@.len() == 0,
    {
        proof {
            encode_utf8_valid_utf8(contents@);
            encode_utf8_decode_utf8(contents@);
            if forall|i: int| 0 <= i < contents@.len() ==> recognize(#[trigger] contents@[i]) is None {
                unrecognized_text_is_empty(contents@);
            }
        }
        let source = contents.as_bytes();
        assert(source@.skip(0) == source@);
        Self { source, position: 0 }
    }

    /// Steps over one character of the text, recognized or not; at the end of
    /// the text, does nothing.
    pub fn advance(&mut self)
        ensures
            old(self).unread().len() == 0 ==> final(self).unread() == old(self).unread(),
            old(self).unread().len() > 0 ==> final(self).unread() == old(self).unread().drop_first(),
    {
        proof {
            use_type_invariant(&*self);
        }
        if self.position < self.source.len() {
            let ghost bytes = self.source@.skip(self.position as int);
            proof {
                first_character_by_leading_byte(bytes);
                assert(bytes.skip(length_of_first_scalar(bytes)) == self.source@.skip(
                    self.position + length_of_first_scalar(bytes),
                ));
            }
            self.position = self.position + width(self.source[self.position]);
        } else {
            assert(self.source@.skip(self.position as int).len() == 0);
        }
    }

    /// Reads up to and over the next recognized character and returns its
    /// instruction. Unrecognized characters are passed over in silence. Once
    /// the text is exhausted, every call returns [`Instruction::EndOfInput`].
    pub fn next(&mut self) -> (instruction: Option<Instruction>)
        ensures
            final(self).unread() == after_first_instruction(old(self).unread()),
            old(self)@.len() == 0 ==> instruction == Some(Instruction::EndOfInput) && final(self)@
                == old(self)@,
            old(self)@.len() > 0 ==> instruction == Some(old(self)@[0]) && final(self)@ == old(
                self,
            )@.drop_first(),
    {
        proof {
            use_type_invariant(&*self);
            instructions_after_first(self.unread());
        }
        loop
            invariant
                self.position <= self.source@.len(),
                valid_utf8(self.source@.skip(self.position as int)),
                after_first_instruction(self.unread()) == after_first_instruction(
                    old(self).unread(),
                ),
                instructions(self.unread()) == instructions(old(self).unread()),
            decreases self.source@.len() - self.position,
        {
            if self.position >= self.source.len() {
                assert(self.source@.skip(self.position as int).len() == 0);
                return Some(Instruction::EndOfInput);
            }
            let ghost bytes = self.source@.skip(self.position as int);
            proof {
                first_character_by_leading_byte(bytes);
                assert(bytes.skip(length_of_first_scalar(bytes)) == self.source@.skip(
                    self.position + length_of_first_scalar(bytes),
                ));
            }
            let byte = self.source[self.position];
            let instruction = classify(byte);
            self.position = self.position + width(byte);
            if instruction.is_some() {
                return instruction;
            }
        }
    }
}

} // verus!
