//! The mnemonic tables of the Hack machine language.
//!
//! A C-instruction is made of three fields, each written as a mnemonic: where
//! the result is stored (`dest`), what is computed (`comp`) and whether to jump
//! (`jump`). The functions here map a mnemonic to the bits of its field,
//! already shifted to the place of the field in the 16-bit instruction word:
//! `dest` occupies bits 5 to 3, `comp` bits 12 to 6 and `jump` bits 2 to 0.

use vstd::prelude::*;
use crate::error::{failed_with, Error, ErrorKind};
use crate::text::{chars_of, spells};

verus! {

/// The bits that mark an instruction word as a C-instruction: bits 15 to 13.
pub const COMPUTE_PREFIX: u16 = 0b1110_0000_0000_0000;

/// The bits of an instruction word that hold the `dest` field.
pub const DEST_MASK: u16 = 0b0000_0000_0011_1000;

/// The bits of an instruction word that hold the `comp` field.
pub const COMP_MASK: u16 = 0b0001_1111_1100_0000;

/// The bits of an instruction word that hold the `jump` field.
pub const JUMP_MASK: u16 = 0b0000_0000_0000_0111;

/// The `dest` field of an instruction word for each of the eight destination
/// mnemonics, and `None` for any other text.
pub open spec fn dest_field(mnemonic: Seq<char>) -> Option<u16> {
    if mnemonic == "null"@ {
        Some(0b000_000)
    } else if mnemonic == "M"@ {
        Some(0b001_000)
    } else if mnemonic == "D"@ {
        Some(0b010_000)
    } else if mnemonic == "MD"@ {
        Some(0b011_000)
    } else if mnemonic == "A"@ {
        Some(0b100_000)
    } else if mnemonic == "AM"@ {
        Some(0b101_000)
    } else if mnemonic == "AD"@ {
        Some(0b110_000)
    } else if mnemonic == "AMD"@ {
        Some(0b111_000)
    } else {
        None
    }
}

/// The `comp` field of an instruction word for each of the twenty-eight
/// computation mnemonics, and `None` for any other text. The leading bit of
/// the seven selects between the A register and the memory word M.
pub open spec fn comp_field(mnemonic: Seq<char>) -> Option<u16> {
    if mnemonic == "0"@ {
        Some(0b0101010_000000)
    } else if mnemonic == "1"@ {
        Some(0b0111111_000000)
    } else if mnemonic == "-1"@ {
        Some(0b0111010_000000)
    } else if mnemonic == "D"@ {
        Some(0b0001100_000000)
    } else if mnemonic == "A"@ {
        Some(0b0110000_000000)
    } else if mnemonic == "!D"@ {
        Some(0b0001101_000000)
    } else if mnemonic == "!A"@ {
        Some(0b0110001_000000)
    } else if mnemonic == "-D"@ {
        Some(0b0001111_000000)
    } else if mnemonic == "-A"@ {
        Some(0b0110011_000000)
    } else if mnemonic == "D+1"@ {
        Some(0b0011111_000000)
    } else if mnemonic == "A+1"@ {
        Some(0b0110111_000000)
    } else if mnemonic == "D-1"@ {
        Some(0b0001110_000000)
    } else if mnemonic == "A-1"@ {
        Some(0b0110010_000000)
    } else if mnemonic == "D+A"@ {
        Some(0b0000010_000000)
    } else if mnemonic == "D-A"@ {
        Some(0b0010011_000000)
    } else if mnemonic == "A-D"@ {
        Some(0b0000111_000000)
    } else if mnemonic == "D&A"@ {
        Some(0b0000000_000000)
    } else if mnemonic == "D|A"@ {
        Some(0b0010101_000000)
    } else if mnemonic == "M"@ {
        Some(0b1110000_000000)
    } else if mnemonic == "!M"@ {
        Some(0b1110001_000000)
    } else if mnemonic == "-M"@ {
        Some(0b1110011_000000)
    } else if mnemonic == "M+1"@ {
        Some(0b1110111_000000)
    } else if mnemonic == "M-1"@ {
        Some(0b1110010_000000)
    } else if mnemonic == "D+M"@ {
        Some(0b1000010_000000)
    } else if mnemonic == "D-M"@ {
        Some(0b1010011_000000)
    } else if mnemonic == "M-D"@ {
        Some(0b1000111_000000)
    } else if mnemonic == "D&M"@ {
        Some(0b1000000_000000)
    } else if mnemonic == "D|M"@ {
        Some(0b1010101_000000)
    } else {
        None
    }
}

/// The `jump` field of an instruction word for each of the eight jump
/// mnemonics, and `None` for any other text.
pub open spec fn jump_field(mnemonic: Seq<char>) -> Option<u16> {
    if mnemonic == "null"@ {
        Some(0b000)
    } else if mnemonic == "JGT"@ {
        Some(0b001)
    } else if mnemonic == "JEQ"@ {
        Some(0b010)
    } else if mnemonic == "JGE"@ {
        Some(0b011)
    } else if mnemonic == "JLT"@ {
        Some(0b100)
    } else if mnemonic == "JNE"@ {
        Some(0b101)
    } else if mnemonic == "JLE"@ {
        Some(0b110)
    } else if mnemonic == "JMP"@ {
        Some(0b111)
    } else {
        None
    }
}

/// Translates the 'dest' mnemonic in a C-command into the bits of its field in
/// the instruction word. A text that is no destination mnemonic is refused
/// with `InvalidMnemonic`.
pub fn dest(mnemonic: &str) -> (field: Result<u16, Error>)
    ensures
        match dest_field(mnemonic@) {
            Some(bits) => field == Ok::<u16, Error>(bits),
            None => failed_with(field, ErrorKind::InvalidMnemonic),
        },
{
    let chars = chars_of(mnemonic);
    if spells(&chars, "null") {
        Ok(0b000_000)
    } else if spells(&chars, "M") {
        Ok(0b001_000)
    } else if spells(&chars, "D") {
        Ok(0b010_000)
    } else if spells(&chars, "MD") {
        Ok(0b011_000)
    } else if spells(&chars, "A") {
        Ok(0b100_000)
    } else if spells(&chars, "AM") {
        Ok(0b101_000)
    } else if spells(&chars, "AD") {
        Ok(0b110_000)
    } else if spells(&chars, "AMD") {
        Ok(0b111_000)
    } else {
        Err(Error::new(ErrorKind::InvalidMnemonic))
    }
}

/// Translates the 'comp' mnemonic in a C-command into the bits of its field in
/// the instruction word. A text that is no computation mnemonic is refused
/// with `InvalidMnemonic`.
pub fn comp(mnemonic: &str) -> (field: Result<u16, Error>)
    ensures
        match comp_field(mnemonic@) {
            Some(bits) => field == Ok::<u16, Error>(bits),
            None => failed_with(field, ErrorKind::InvalidMnemonic),
        },
{
    let chars = chars_of(mnemonic);
    if spells(&chars, "0") {
        Ok(0b0101010_000000)
    } else if spells(&chars, "1") {
        Ok(0b0111111_000000)
    } else if spells(&chars, "-1") {
        Ok(0b0111010_000000)
    } else if spells(&chars, "D") {
        Ok(0b0001100_000000)
    } else if spells(&chars, "A") {
        Ok(0b0110000_000000)
    } else if spells(&chars, "!D") {
        Ok(0b0001101_000000)
    } else if spells(&chars, "!A") {
        Ok(0b0110001_000000)
    } else if spells(&chars, "-D") {
        Ok(0b0001111_000000)
    } else if spells(&chars, "-A") {
        Ok(0b0110011_000000)
    } else if spells(&chars, "D+1") {
        Ok(0b0011111_000000)
    } else if spells(&chars, "A+1") {
        Ok(0b0110111_000000)
    } else if spells(&chars, "D-1") {
        Ok(0b0001110_000000)
    } else if spells(&chars, "A-1") {
        Ok(0b0110010_000000)
    } else if spells(&chars, "D+A") {
        Ok(0b0000010_000000)
    } else if spells(&chars, "D-A") {
        Ok(0b0010011_000000)
    } else if spells(&chars, "A-D") {
        Ok(0b0000111_000000)
    } else if spells(&chars, "D&A") {
        Ok(0b0000000_000000)
    } else if spells(&chars, "D|A") {
        Ok(0b0010101_000000)
    } else if spells(&chars, "M") {
        Ok(0b1110000_000000)
    } else if spells(&chars, "!M") {
        Ok(0b1110001_000000)
    } else if spells(&chars, "-M") {
        Ok(0b1110011_000000)
    } else if spells(&chars, "M+1") {
        Ok(0b1110111_000000)
    } else if spells(&chars, "M-1") {
        Ok(0b1110010_000000)
    } else if spells(&chars, "D+M") {
        Ok(0b1000010_000000)
    } else if spells(&chars, "D-M") {
        Ok(0b1010011_000000)
    } else if spells(&chars, "M-D") {
        Ok(0b1000111_000000)
    } else if spells(&chars, "D&M") {
        Ok(0b1000000_000000)
    } else if spells(&chars, "D|M") {
        Ok(0b1010101_000000)
    } else {
        Err(Error::new(ErrorKind::InvalidMnemonic))
    }
}

/// Translates the 'jump' mnemonic in a C-command into the bits of its field in
/// the instruction word. A text that is no jump mnemonic is refused with
/// `InvalidMnemonic`.
pub fn jump(mnemonic: &str) -> (field: Result<u16, Error>)
    ensures
        match jump_field(mnemonic@) {
            Some(bits) => field == Ok::<u16, Error>(bits),
            None => failed_with(field, ErrorKind::InvalidMnemonic),
        },
{
    let chars = chars_of(mnemonic);
    if spells(&chars, "null") {
        Ok(0b000)
    } else if spells(&chars, "JGT") {
        Ok(0b001)
    } else if spells(&chars, "JEQ") {
        Ok(0b010)
    } else if spells(&chars, "JGE") {
        Ok(0b011)
    } else if spells(&chars, "JLT") {
        Ok(0b100)
    } else if spells(&chars, "JNE") {
        Ok(0b101)
    } else if spells(&chars, "JLE") {
        Ok(0b110)
    } else if spells(&chars, "JMP") {
        Ok(0b111)
    } else {
        Err(Error::new(ErrorKind::InvalidMnemonic))
    }
}

/// The destination table, entry by entry: each of the eight mnemonics has the
/// bit pattern listed here.
pub proof fn lemma_dest_table()
    ensures
        dest_field("null"@) == Some(0b000_000u16),
        dest_field("M"@) == Some(0b001_000u16),
        dest_field("D"@) == Some(0b010_000u16),
        dest_field("MD"@) == Some(0b011_000u16),
        dest_field("A"@) == Some(0b100_000u16),
        dest_field("AM"@) == Some(0b101_000u16),
        dest_field("AD"@) == Some(0b110_000u16),
        dest_field("AMD"@) == Some(0b111_000u16),
{
    reveal_strlit("null");
    reveal_strlit("M");
    reveal_strlit("D");
    reveal_strlit("MD");
    reveal_strlit("A");
    reveal_strlit("AM");
    reveal_strlit("AD");
    reveal_strlit("AMD");
    assert("null"@.len() == 4 && "null"@[0] == 'n' && "null"@[1] == 'u' && "null"@[2] == 'l'
        && "null"@[3] == 'l');
    assert("M"@.len() == 1 && "M"@[0] == 'M');
    assert("D"@.len() == 1 && "D"@[0] == 'D');
    assert("MD"@.len() == 2 && "MD"@[0] == 'M' && "MD"@[1] == 'D');
    assert("A"@.len() == 1 && "A"@[0] == 'A');
    assert("AM"@.len() == 2 && "AM"@[0] == 'A' && "AM"@[1] == 'M');
    assert("AD"@.len() == 2 && "AD"@[0] == 'A' && "AD"@[1] == 'D');
    assert("AMD"@.len() == 3 && "AMD"@[0] == 'A' && "AMD"@[1] == 'M' && "AMD"@[2] == 'D');
}

/// The computation table, entry by entry: each of the twenty-eight mnemonics
/// has the bit pattern listed here.
pub proof fn lemma_comp_table()
    ensures
        comp_field("0"@) == Some(0b0101010_000000u16),
        comp_field("1"@) == Some(0b0111111_000000u16),
        comp_field("-1"@) == Some(0b0111010_000000u16),
        comp_field("D"@) == Some(0b0001100_000000u16),
        comp_field("A"@) == Some(0b0110000_000000u16),
        comp_field("!D"@) == Some(0b0001101_000000u16),
        comp_field("!A"@) == Some(0b0110001_000000u16),
        comp_field("-D"@) == Some(0b0001111_000000u16),
        comp_field("-A"@) == Some(0b0110011_000000u16),
        comp_field("D+1"@) == Some(0b0011111_000000u16),
        comp_field("A+1"@) == Some(0b0110111_000000u16),
        comp_field("D-1"@) == Some(0b0001110_000000u16),
        comp_field("A-1"@) == Some(0b0110010_000000u16),
        comp_field("D+A"@) == Some(0b0000010_000000u16),
        comp_field("D-A"@) == Some(0b0010011_000000u16),
        comp_field("A-D"@) == Some(0b0000111_000000u16),
        comp_field("D&A"@) == Some(0b0000000_000000u16),
        comp_field("D|A"@) == Some(0b0010101_000000u16),
        comp_field("M"@) == Some(0b1110000_000000u16),
        comp_field("!M"@) == Some(0b1110001_000000u16),
        comp_field("-M"@) == Some(0b1110011_000000u16),
        comp_field("M+1"@) == Some(0b1110111_000000u16),
        comp_field("M-1"@) == Some(0b1110010_000000u16),
        comp_field("D+M"@) == Some(0b1000010_000000u16),
        comp_field("D-M"@) == Some(0b1010011_000000u16),
        comp_field("M-D"@) == Some(0b1000111_000000u16),
        comp_field("D&M"@) == Some(0b1000000_000000u16),
        comp_field("D|M"@) == Some(0b1010101_000000u16),
{
    reveal_strlit("0");
    reveal_strlit("1");
    reveal_strlit("-1");
    reveal_strlit("D");
    reveal_strlit("A");
    reveal_strlit("!D");
    reveal_strlit("!A");
    reveal_strlit("-D");
    reveal_strlit("-A");
    reveal_strlit("D+1");
    reveal_strlit("A+1");
    reveal_strlit("D-1");
    reveal_strlit("A-1");
    reveal_strlit("D+A");
    reveal_strlit("D-A");
    reveal_strlit("A-D");
    reveal_strlit("D&A");
    reveal_strlit("D|A");
    reveal_strlit("M");
    reveal_strlit("!M");
    reveal_strlit("-M");
    reveal_strlit("M+1");
    reveal_strlit("M-1");
    reveal_strlit("D+M");
    reveal_strlit("D-M");
    reveal_strlit("M-D");
    reveal_strlit("D&M");
    reveal_strlit("D|M");
    assert("0"@.len() == 1 && "0"@[0] == '0');
    assert("1"@.len() == 1 && "1"@[0] == '1');
    assert("-1"@.len() == 2 && "-1"@[0] == '-' && "-1"@[1] == '1');
    assert("D"@.len() == 1 && "D"@[0] == 'D');
    assert("A"@.len() == 1 && "A"@[0] == 'A');
    assert("!D"@.len() == 2 && "!D"@[0] == '!' && "!D"@[1] == 'D');
    assert("!A"@.len() == 2 && "!A"@[0] == '!' && "!A"@[1] == 'A');
    assert("-D"@.len() == 2 && "-D"@[0] == '-' && "-D"@[1] == 'D');
    assert("-A"@.len() == 2 && "-A"@[0] == '-' && "-A"@[1] == 'A');
    assert("D+1"@.len() == 3 && "D+1"@[0] == 'D' && "D+1"@[1] == '+' && "D+1"@[2] == '1');
    assert("A+1"@.len() == 3 && "A+1"@[0] == 'A' && "A+1"@[1] == '+' && "A+1"@[2] == '1');
    assert("D-1"@.len() == 3 && "D-1"@[0] == 'D' && "D-1"@[1] == '-' && "D-1"@[2] == '1');
    assert("A-1"@.len() == 3 && "A-1"@[0] == 'A' && "A-1"@[1] == '-' && "A-1"@[2] == '1');
    assert("D+A"@.len() == 3 && "D+A"@[0] == 'D' && "D+A"@[1] == '+' && "D+A"@[2] == 'A');
    assert("D-A"@.len() == 3 && "D-A"@[0] == 'D' && "D-A"@[1] == '-' && "D-A"@[2] == 'A');
    assert("A-D"@.len() == 3 && "A-D"@[0] == 'A' && "A-D"@[1] == '-' && "A-D"@[2] == 'D');
    assert("D&A"@.len() == 3 && "D&A"@[0] == 'D' && "D&A"@[1] == '&' && "D&A"@[2] == 'A');
    assert("D|A"@.len() == 3 && "D|A"@[0] == 'D' && "D|A"@[1] == '|' && "D|A"@[2] == 'A');
    assert("M"@.len() == 1 && "M"@[0] == 'M');
    assert("!M"@.len() == 2 && "!M"@[0] == '!' && "!M"@[1] == 'M');
    assert("-M"@.len() == 2 && "-M"@[0] == '-' && "-M"@[1] == 'M');
    assert("M+1"@.len() == 3 && "M+1"@[0] == 'M' && "M+1"@[1] == '+' && "M+1"@[2] == '1');
    assert("M-1"@.len() == 3 && "M-1"@[0] == 'M' && "M-1"@[1] == '-' && "M-1"@[2] == '1');
    assert("D+M"@.len() == 3 && "D+M"@[0] == 'D' && "D+M"@[1] == '+' && "D+M"@[2] == 'M');
    assert("D-M"@.len() == 3 && "D-M"@[0] == 'D' && "D-M"@[1] == '-' && "D-M"@[2] == 'M');
    assert("M-D"@.len() == 3 && "M-D"@[0] == 'M' && "M-D"@[1] == '-' && "M-D"@[2] == 'D');
    assert("D&M"@.len() == 3 && "D&M"@[0] == 'D' && "D&M"@[1] == '&' && "D&M"@[2] == 'M');
    assert("D|M"@.len() == 3 && "D|M"@[0] == 'D' && "D|M"@[1] == '|' && "D|M"@[2] == 'M');
}

/// The jump table, entry by entry: each of the eight mnemonics has the bit
/// pattern listed here.
pub proof fn lemma_jump_table()
    ensures
        jump_field("null"@) == Some(0b000u16),
        jump_field("JGT"@) == Some(0b001u16),
        jump_field("JEQ"@) == Some(0b010u16),
        jump_field("JGE"@) == Some(0b011u16),
        jump_field("JLT"@) == Some(0b100u16),
        jump_field("JNE"@) == Some(0b101u16),
        jump_field("JLE"@) == Some(0b110u16),
        jump_field("JMP"@) == Some(0b111u16),
{
    reveal_strlit("null");
    reveal_strlit("JGT");
    reveal_strlit("JEQ");
    reveal_strlit("JGE");
    reveal_strlit("JLT");
    reveal_strlit("JNE");
    reveal_strlit("JLE");
    reveal_strlit("JMP");
    assert("null"@.len() == 4 && "null"@[0] == 'n' && "null"@[1] == 'u' && "null"@[2] == 'l'
        && "null"@[3] == 'l');
    assert("JGT"@.len() == 3 && "JGT"@[0] == 'J' && "JGT"@[1] == 'G' && "JGT"@[2] == 'T');
    assert("JEQ"@.len() == 3 && "JEQ"@[0] == 'J' && "JEQ"@[1] == 'E' && "JEQ"@[2] == 'Q');
    assert("JGE"@.len() == 3 && "JGE"@[0] == 'J' && "JGE"@[1] == 'G' && "JGE"@[2] == 'E');
    assert("JLT"@.len() == 3 && "JLT"@[0] == 'J' && "JLT"@[1] == 'L' && "JLT"@[2] == 'T');
    assert("JNE"@.len() == 3 && "JNE"@[0] == 'J' && "JNE"@[1] == 'N' && "JNE"@[2] == 'E');
    assert("JLE"@.len() == 3 && "JLE"@[0] == 'J' && "JLE"@[1] == 'L' && "JLE"@[2] == 'E');
    assert("JMP"@.len() == 3 && "JMP"@[0] == 'J' && "JMP"@[1] == 'M' && "JMP"@[2] == 'P');
}

/// The word of a C-instruction: the prefix and the three fields, each in its
/// own bits.
pub open spec fn compute_word(dest: u16, comp: u16, jump: u16) -> int {
    COMPUTE_PREFIX + dest + comp + jump
}

/// A `dest` field lies in bits 5 to 3.
pub proof fn lemma_dest_field_bits(mnemonic: Seq<char>)
    requires
        dest_field(mnemonic) is Some,
    ensures
        dest_field(mnemonic)->0 % 8 == 0,
        dest_field(mnemonic)->0 <= 0b111_000,
{
}

/// A `comp` field lies in bits 12 to 6.
pub proof fn lemma_comp_field_bits(mnemonic: Seq<char>)
    requires
        comp_field(mnemonic) is Some,
    ensures
        comp_field(mnemonic)->0 % 64 == 0,
        comp_field(mnemonic)->0 <= 0b1111111_000000,
{
}

/// A `jump` field lies in bits 2 to 0.
pub proof fn lemma_jump_field_bits(mnemonic: Seq<char>)
    requires
        jump_field(mnemonic) is Some,
    ensures
        jump_field(mnemonic)->0 <= 0b111,
{
}

/// No two destination mnemonics share a bit pattern.
pub proof fn lemma_dest_field_injective(first: Seq<char>, second: Seq<char>)
    requires
        dest_field(first) is Some,
        dest_field(first) == dest_field(second),
    ensures
        first == second,
{
}

/// No two computation mnemonics share a bit pattern.
pub proof fn lemma_comp_field_injective(first: Seq<char>, second: Seq<char>)
    requires
        comp_field(first) is Some,
        comp_field(first) == comp_field(second),
    ensures
        first == second,
{
}

/// No two jump mnemonics share a bit pattern.
pub proof fn lemma_jump_field_injective(first: Seq<char>, second: Seq<char>)
    requires
        jump_field(first) is Some,
        jump_field(first) == jump_field(second),
    ensures
        first == second,
{
}

/// Fields that keep to their own bits can be read back from the sum: the sum
/// fits in sixteen bits, and masking it gives each field and the prefix.
pub proof fn lemma_fields_disjoint(dest: u16, comp: u16, jump: u16)
    requires
        dest % 8 == 0,
        dest <= 0b111_000,
        comp % 64 == 0,
        comp <= 0b1111111_000000,
        jump <= 0b111,
    ensures
        compute_word(dest, comp, jump) <= u16::MAX,
        (compute_word(dest, comp, jump) as u16) & COMPUTE_PREFIX == COMPUTE_PREFIX,
        (compute_word(dest, comp, jump) as u16) & DEST_MASK == dest,
        (compute_word(dest, comp, jump) as u16) & COMP_MASK == comp,
        (compute_word(dest, comp, jump) as u16) & JUMP_MASK == jump,
{
    let word: u16 = (0xE000 + dest + comp + jump) as u16;
    assert(word & 0xE000 == 0xE000 && word & 0x38 == dest && word & 0x1FC0 == comp && word & 0x7
        == jump) by (bit_vector)
        requires
            dest % 8 == 0,
            dest <= 0x38,
            comp % 64 == 0,
            comp <= 0x1FC0,
            jump <= 7,
            word == (0xE000u16 + dest + comp + jump) as u16,
    ;
}

/// Encoding a C-instruction and decoding it against the same tables gives the
/// mnemonics back: a mnemonic has the bit pattern found in a field of the word
/// exactly if it is the mnemonic that was encoded there.
pub proof fn lemma_compute_word_round_trip(dest: Seq<char>, comp: Seq<char>, jump: Seq<char>)
    requires
        dest_field(dest) is Some,
        comp_field(comp) is Some,
        jump_field(jump) is Some,
    ensures
        ({
            let word = compute_word(dest_field(dest)->0, comp_field(comp)->0, jump_field(jump)->0);
            &&& word <= u16::MAX
            &&& (word as u16) & COMPUTE_PREFIX == COMPUTE_PREFIX
            &&& forall|other: Seq<char>| #[trigger]
                dest_field(other) == Some((word as u16) & DEST_MASK) <==> other == dest
            &&& forall|other: Seq<char>| #[trigger]
                comp_field(other) == Some((word as u16) & COMP_MASK) <==> other == comp
            &&& forall|other: Seq<char>| #[trigger]
                jump_field(other) == Some((word as u16) & JUMP_MASK) <==> other == jump
        }),
{
    lemma_dest_field_bits(dest);
    lemma_comp_field_bits(comp);
    lemma_jump_field_bits(jump);
    lemma_fields_disjoint(dest_field(dest)->0, comp_field(comp)->0, jump_field(jump)->0);
    assert forall|other: Seq<char>| #[trigger]
        dest_field(other) == dest_field(dest) implies other == dest by {
        lemma_dest_field_injective(dest, other);
    }
    assert forall|other: Seq<char>| #[trigger]
        comp_field(other) == comp_field(comp) implies other == comp by {
        lemma_comp_field_injective(comp, other);
    }
    assert forall|other: Seq<char>| #[trigger]
        jump_field(other) == jump_field(jump) implies other == jump by {
        lemma_jump_field_injective(jump, other);
    }
}

} // verus!
