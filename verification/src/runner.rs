//! The two passes of the assembler.
//!
//! The first pass walks through the lines of a program and enters each label
//! into the symbol table, with the address of the instruction that follows it.
//! The second pass walks through the lines again and translates each A- and
//! C-command into a 16-bit instruction word; a symbol that is no label by then
//! is a variable and gets the next free RAM address. The words are written
//! out as lines of sixteen binary digits.

use vstd::prelude::*;
use crate::code_translator;
use crate::code_translator::{
    comp_field, compute_word, dest_field, jump_field, lemma_comp_field_bits,
    lemma_dest_field_bits, lemma_fields_disjoint, lemma_jump_field_bits, COMPUTE_PREFIX,
};
use crate::error::{failed_at, failed_with, Error, ErrorKind};
use crate::parser::{
    command_of, lemma_no_command_in_empty_line, parse_line, texts, Command, Instruction, Parser,
    ParserState,
};
use crate::symbols::{Symbols, MAX_INSTRUCTIONS};
use crate::syntax::{
    comp_of, decimal_value, dest_of, is_literal, jump_of, label_of, literal_in, operand_of,
};
use crate::text::chars_of;

verus! {

/// What the first pass does with the command of a line: a label is entered
/// into the symbol table, an A- or C-command is counted, and no command
/// changes nothing. The result is the new symbol table, or the reason why the
/// pass fails at this line.
pub open spec fn scan_command(symbols: Symbols, command: Option<Instruction>) -> Result<
    Symbols,
    ErrorKind,
> {
    match command {
        None => Ok(symbols),
        Some(Instruction::Label(text)) => match symbols.insert_label(label_of(text)) {
            Ok((next, _)) => Ok(next),
            Err(kind) => Err(kind),
        },
        Some(_) => if symbols.rom_address == MAX_INSTRUCTIONS {
            Err(ErrorKind::ROMFull)
        } else {
            Ok(symbols.inc_rom_address())
        },
    }
}

/// What the first pass does with a line.
pub open spec fn scan_line(symbols: Symbols, line: Seq<char>) -> Result<Symbols, ErrorKind> {
    match parse_line(line) {
        Ok(command) => scan_command(symbols, command),
        Err(kind) => Err(kind),
    }
}

/// The outcome of the first pass over some lines.
pub struct Scan {
    /// The symbol table after the last line that was read without failure.
    pub symbols: Symbols,
    /// The number of lines read, the failing line included.
    pub read: nat,
    /// The reason why the pass failed at the last line read, if it did.
    pub error: Option<ErrorKind>,
}

/// The first pass over `lines`, begun with the table `symbols`: line after
/// line up to the end, or to the first line that fails.
pub open spec fn scan_lines(symbols: Symbols, lines: Seq<Seq<char>>) -> Scan
    decreases lines.len(),
{
    if lines.len() == 0 {
        Scan { symbols, read: 0, error: None }
    } else {
        match scan_line(symbols, lines[0]) {
            Ok(next) => {
                let rest = scan_lines(next, lines.drop_first());
                Scan { read: rest.read + 1, ..rest }
            },
            Err(kind) => Scan { symbols, read: 1, error: Some(kind) },
        }
    }
}

/// The address that the text behind `@`, or between the brackets of a label,
/// stands for: the value of a literal; the address of a symbol that the
/// table has; for any other symbol the next free RAM address, with which it
/// enters the table as a new variable.
pub open spec fn resolve(symbols: Symbols, name: Seq<char>) -> Result<(Symbols, u16), ErrorKind> {
    if is_literal(name) {
        Ok((symbols, decimal_value(name) as u16))
    } else {
        match symbols.get(name) {
            Some(address) => Ok((symbols, address)),
            None => symbols.insert_variable(name),
        }
    }
}

/// The instruction word of a C-command: the prefix `111` and the three
/// fields, or `InvalidMnemonic` where one of its mnemonics is in no table. A
/// destination or a jump that is left out sets no bit.
pub open spec fn translate_compute(text: Seq<char>) -> Result<u16, ErrorKind> {
    let dest = match dest_of(text) {
        Some(mnemonic) => dest_field(mnemonic),
        None => Some(0),
    };
    let comp = comp_field(comp_of(text));
    let jump = match jump_of(text) {
        Some(mnemonic) => jump_field(mnemonic),
        None => Some(0),
    };
    match (dest, comp, jump) {
        (Some(dest), Some(comp), Some(jump)) => Ok(compute_word(dest, comp, jump) as u16),
        _ => Err(ErrorKind::InvalidMnemonic),
    }
}

/// What the second pass does with the command of a line: an A- or C-command
/// gives an instruction word, and an A-command may add a variable to the
/// symbol table; a label and no command give nothing.
pub open spec fn translate_command(symbols: Symbols, command: Option<Instruction>) -> Result<
    (Symbols, Option<u16>),
    ErrorKind,
> {
    match command {
        Some(Instruction::Address(text)) => match resolve(symbols, operand_of(text)) {
            Ok((next, word)) => Ok((next, Some(word))),
            Err(kind) => Err(kind),
        },
        Some(Instruction::Compute(text)) => match translate_compute(text) {
            Ok(word) => Ok((symbols, Some(word))),
            Err(kind) => Err(kind),
        },
        _ => Ok((symbols, None)),
    }
}

/// What the second pass does with a line.
pub open spec fn translate_line_of(symbols: Symbols, line: Seq<char>) -> Result<
    (Symbols, Option<u16>),
    ErrorKind,
> {
    match parse_line(line) {
        Ok(command) => translate_command(symbols, command),
        Err(kind) => Err(kind),
    }
}

/// The outcome of the second pass over some lines.
pub struct Translation {
    /// The symbol table after the last line that was read without failure.
    pub symbols: Symbols,
    /// The instruction words of the lines read without failure, in order.
    pub words: Seq<u16>,
    /// The number of lines read, the failing line included.
    pub read: nat,
    /// The reason why the pass failed at the last line read, if it did.
    pub error: Option<ErrorKind>,
}

/// The second pass over `lines`, begun with the table `symbols`: line after
/// line up to the end, or to the first line that fails.
pub open spec fn translate_lines(symbols: Symbols, lines: Seq<Seq<char>>) -> Translation
    decreases lines.len(),
{
    if lines.len() == 0 {
        Translation { symbols, words: Seq::empty(), read: 0, error: None }
    } else {
        match translate_line_of(symbols, lines[0]) {
            Ok((next, word)) => {
                let rest = translate_lines(next, lines.drop_first());
                let first = match word {
                    Some(word) => seq![word],
                    None => Seq::empty(),
                };
                Translation { words: first + rest.words, read: rest.read + 1, ..rest }
            },
            Err(kind) => Translation { symbols, words: Seq::empty(), read: 1, error: Some(kind) },
        }
    }
}

/// The binary digit, `0` or `1`, that stands at place `at` of a word written
/// as sixteen binary digits, counted from the left.
pub open spec fn binary_digit(word: u16, at: int) -> u8 {
    if (word >> ((15 - at) as u16)) & 1 == 1 {
        '1' as u8
    } else {
        '0' as u8
    }
}

/// A word as a line of output: its sixteen binary digits, the highest bit
/// first, and a line break.
pub open spec fn binary_line(word: u16) -> Seq<u8> {
    Seq::new(
        17,
        |at: int|
            if at < 16 {
                binary_digit(word, at)
            } else {
                '\n' as u8
            },
    )
}

/// The output for some words: the line of each word, in order.
pub open spec fn render(words: Seq<u16>) -> Seq<u8>
    decreases words.len(),
{
    if words.len() == 0 {
        Seq::empty()
    } else {
        render(words.drop_last()) + binary_line(words.last())
    }
}

/// Where a parser stands after a pass that began at `before`, read `read`
/// lines and left the table `symbols`: behind the end with no line if the
/// pass came to the end, else at the line that failed.
pub open spec fn after_pass(
    before: ParserState,
    symbols: Symbols,
    read: nat,
    failed: bool,
) -> ParserState {
    if failed {
        let line = before.lines[before.position + read - 1];
        ParserState {
            position: before.position + read,
            raw_line: line,
            command: command_of(line),
            symbols,
            ..before
        }
    } else {
        ParserState {
            position: before.position + read,
            raw_line: Seq::empty(),
            command: None,
            symbols,
            ..before
        }
    }
}

/// Adds a new label symbol to the symbol table with the current ROM address upon finding an
/// L-pseudocommand.  Increments the ROM address when an A- or C-command is found, or does nothing
/// if no command is present.
///
/// Returns Ok(0) if execution completes without error. An instruction that cannot be
/// counted any more is refused with `ROMFull`, and so is a label whose address does not
/// fit in 15 bits.
pub fn process_l_cmd(parser: &mut Parser) -> (done: Result<u8, Error>)
    requires
        old(parser).wf(),
    ensures
        final(parser).wf(),
        match scan_command(old(parser)@.symbols, old(parser)@.command) {
            Ok(symbols) => {
                &&& done == Ok::<u8, Error>(0)
                &&& final(parser)@ == old(parser)@.with_symbols(symbols)
            },
            Err(kind) => failed_with(done, kind) && final(parser)@ == old(parser)@,
        },
{
    match parser.get_command() {
        Some(Command::LCommand(_)) => {
            let symbol = parser.symbol()?;
            parser.insert_label(symbol.as_str())?;
        },
        Some(_) => {
            if parser.rom_address() == MAX_INSTRUCTIONS {
                return Err(Error::new(ErrorKind::ROMFull));
            }
            parser.inc_rom_address();
        },
        None => {},
    };
    Ok(0)
}

/// Takes a Parser object and advances line-by-line through the lines that it has left.
///
/// Each line is processed for present L-pseudocommands,
///
/// Returns Ok(0) if execution completes without error. The parser then stands behind its
/// last line. Where a line fails, the error names the line by its number, and the parser
/// stands at that line, with the symbol table as it was before the line.
pub fn first_pass(parser: &mut Parser) -> (done: Result<u8, Error>)
    requires
        old(parser).wf(),
    ensures
        final(parser).wf(),
        ({
            let scan = scan_lines(old(parser)@.symbols, old(parser)@.remaining());
            &&& final(parser)@ == after_pass(
                old(parser)@,
                scan.symbols,
                scan.read,
                scan.error is Some,
            )
            &&& match scan.error {
                None => done == Ok::<u8, Error>(0),
                Some(kind) => failed_at(done, kind, final(parser)@.position),
            }
        }),
{
    let ghost before = parser@;
    let ghost whole = scan_lines(before.symbols, before.remaining());
    loop
        invariant
            before == old(parser)@,
            parser.wf(),
            parser@.lines == before.lines,
            parser@.position >= before.position,
            whole == scan_lines(before.symbols, before.remaining()),
            ({
                let rest = scan_lines(parser@.symbols, parser@.remaining());
                &&& whole.symbols == rest.symbols
                &&& whole.error == rest.error
                &&& whole.read == parser@.position - before.position + rest.read
            }),
        decreases parser@.lines.len() - parser@.position,
    {
        let ghost here = parser@;
        let at_end = parser.at_end();
        assert(!at_end ==> here.remaining().drop_first() == here.advance().remaining());
        proof {
            lemma_no_command_in_empty_line();
        }
        parser.advance()?;
        if at_end {
            return Ok(0);
        }
        match process_l_cmd(parser) {
            Ok(_) => {},
            Err(error) => {
                return Err(error.at_line(parser.line_number()));
            },
        }
    }
}

/// Translates an A-command into a binary machine instruction.
///
/// The symbol table of the parser is referenced or updated as needed when symbolic A-Commands
/// are found.
///
/// Returns a result containing the 16-bit machine instruction. Called on an L-command it
/// resolves the label; on a C-command or none it fails with `InvalidCmdType`.
pub fn translate_a_cmd(parser: &mut Parser) -> (word: Result<u16, Error>)
    requires
        old(parser).wf(),
    ensures
        final(parser).wf(),
        match old(parser)@.command {
            Some(Instruction::Address(text)) => resolved(
                old(parser)@,
                operand_of(text),
                word,
                final(parser)@,
            ),
            Some(Instruction::Label(text)) => resolved(
                old(parser)@,
                label_of(text),
                word,
                final(parser)@,
            ),
            _ => failed_with(word, ErrorKind::InvalidCmdType) && final(parser)@ == old(parser)@,
        },
{
    let symbol = parser.symbol()?;
    let chars = chars_of(symbol.as_str());
    assert(chars@.subrange(0, chars.len() as int) == chars@);
    match literal_in(&chars, 0, chars.len()) {
        Some(address) => Ok(address),
        None => match parser.get_symbol_address(symbol.as_str()) {
            Some(address) => Ok(address),
            None => parser.insert_variable(symbol.as_str()),
        },
    }
}

/// A parser has resolved `name`: it went from `before` to `after` and gave
/// `word` as [`resolve`] says.
pub open spec fn resolved(
    before: ParserState,
    name: Seq<char>,
    word: Result<u16, Error>,
    after: ParserState,
) -> bool {
    match resolve(before.symbols, name) {
        Ok((symbols, address)) => word == Ok::<u16, Error>(address) && after
            == before.with_symbols(symbols),
        Err(kind) => failed_with(word, kind) && after == before,
    }
}

/// Translates a C-command into a binary machine instruction.
///
/// Returns a result containing the 16-bit machine instruction. A mnemonic that is in no
/// table is refused with `InvalidMnemonic`, and any command but a C-command with
/// `InvalidCmdType`.
pub fn translate_c_cmd(parser: &Parser) -> (word: Result<u16, Error>)
    requires
        parser.wf(),
    ensures
        match parser@.command {
            Some(Instruction::Compute(text)) => match translate_compute(text) {
                Ok(instruction) => word == Ok::<u16, Error>(instruction),
                Err(kind) => failed_with(word, kind),
            },
            _ => failed_with(word, ErrorKind::InvalidCmdType),
        },
{
    let dest = match parser.dest()? {
        Some(mnemonic) => {
            let field = code_translator::dest(mnemonic.as_str())?;
            proof {
                lemma_dest_field_bits(mnemonic@);
            }
            field
        },
        None => 0,
    };
    let comp = match parser.comp()? {
        Some(mnemonic) => {
            let field = code_translator::comp(mnemonic.as_str())?;
            proof {
                lemma_comp_field_bits(mnemonic@);
            }
            field
        },
        None => 0,
    };
    let jump = match parser.jump()? {
        Some(mnemonic) => {
            let field = code_translator::jump(mnemonic.as_str())?;
            proof {
                lemma_jump_field_bits(mnemonic@);
            }
            field
        },
        None => 0,
    };
    proof {
        lemma_fields_disjoint(dest, comp, jump);
    }
    Ok(COMPUTE_PREFIX + dest + comp + jump)
}

/// Takes the current command and, if it is an A- or C-command, translates it into a binary machine
/// instruction.
///
/// Returns a result with an option that contains the instruction, or None if an A- or C-command
/// was not present.
pub fn translate_line(parser: &mut Parser) -> (word: Result<Option<u16>, Error>)
    requires
        old(parser).wf(),
    ensures
        final(parser).wf(),
        match translate_command(old(parser)@.symbols, old(parser)@.command) {
            Ok((symbols, instruction)) => {
                &&& word == Ok::<Option<u16>, Error>(instruction)
                &&& final(parser)@ == old(parser)@.with_symbols(symbols)
            },
            Err(kind) => failed_with(word, kind) && final(parser)@ == old(parser)@,
        },
{
    let instruction = match parser.get_command() {
        Some(Command::ACommand(_)) => translate_a_cmd(parser)?,
        Some(Command::CCommand(_)) => translate_c_cmd(parser)?,
        _ => {
            return Ok(None);
        },
    };
    Ok(Some(instruction))
}

/// Writes a word to the end of `output` as a line of sixteen binary digits.
pub fn write_word(output: &mut Vec<u8>, word: u16)
    ensures
        final(output)@ == old(output)@ + binary_line(word),
{
    let ghost before = output@;
    let mut at: u16 = 0;
    while at < 16
        invariant
            at <= 16,
            output@.len() == before.len() + at,
            forall|i: int| 0 <= i < before.len() ==> output@[i] == before[i],
            forall|i: int| 0 <= i < at ==> output@[before.len() + i] == binary_digit(word, i),
        decreases 16 - at,
    {
        let digit: u8 = if (word >> (15 - at)) & 1 == 1 {
            '1' as u8
        } else {
            '0' as u8
        };
        output.push(digit);
        at = at + 1;
    }
    output.push('\n' as u8);
}

/// Takes a Parser object and advances line-by-line through the lines that it has left.
///
/// An attempt is made to translate each line into a binary machine instruction.  If successful
/// the instruction is written to the end of the output.
///
/// Returns Ok(0) if execution completes without error. The parser then stands behind its
/// last line. Where a line fails, the error names the line by its number, the parser stands
/// at that line, with the symbol table as it was before the line, and the output holds the
/// instructions of the lines before it.
pub fn second_pass(parser: &mut Parser, output_writer: &mut Vec<u8>) -> (done: Result<u8, Error>)
    requires
        old(parser).wf(),
    ensures
        final(parser).wf(),
        ({
            let translation = translate_lines(old(parser)@.symbols, old(parser)@.remaining());
            &&& final(parser)@ == after_pass(
                old(parser)@,
                translation.symbols,
                translation.read,
                translation.error is Some,
            )
            &&& final(output_writer)@ == old(output_writer)@ + render(translation.words)
            &&& match translation.error {
                None => done == Ok::<u8, Error>(0),
                Some(kind) => failed_at(done, kind, final(parser)@.position),
            }
        }),
{
    let ghost before = parser@;
    let ghost written = output_writer@;
    let ghost whole = translate_lines(before.symbols, before.remaining());
    let ghost mut words: Seq<u16> = Seq::empty();
    loop
        invariant
            before == old(parser)@,
            parser.wf(),
            parser@.lines == before.lines,
            parser@.position >= before.position,
            whole == translate_lines(before.symbols, before.remaining()),
            written == old(output_writer)@,
            output_writer@ == written + render(words),
            ({
                let rest = translate_lines(parser@.symbols, parser@.remaining());
                &&& whole.symbols == rest.symbols
                &&& whole.error == rest.error
                &&& whole.read == parser@.position - before.position + rest.read
                &&& whole.words == words + rest.words
            }),
        decreases parser@.lines.len() - parser@.position,
    {
        let ghost here = parser@;
        let at_end = parser.at_end();
        assert(!at_end ==> here.remaining().drop_first() == here.advance().remaining());
        proof {
            lemma_no_command_in_empty_line();
        }
        parser.advance()?;
        if at_end {
            return Ok(0);
        }
        match translate_line(parser) {
            Ok(Some(word)) => {
                write_word(output_writer, word);
                proof {
                    assert(words.push(word).drop_last() == words);
                    assert(written + render(words) + binary_line(word) == written + (render(words)
                        + binary_line(word)));
                    words = words.push(word);
                }
            },
            Ok(None) => {},
            Err(error) => {
                return Err(error.at_line(parser.line_number()));
            },
        }
    }
}

/// The outcome of assembling a program.
pub struct Assembly {
    /// The instruction words that were written out, in order.
    pub words: Seq<u16>,
    /// The reason why the run failed, if it did.
    pub error: Option<ErrorKind>,
    /// The number of the line at which the run failed, if it did. Lines are
    /// counted from 1.
    pub failed_at: Option<nat>,
}

/// What assembling the lines of a program gives: the first pass over all
/// lines with a new symbol table fills in the labels; if it comes to the end,
/// the second pass over all lines gives the instruction words.
pub open spec fn assemble(lines: Seq<Seq<char>>) -> Assembly {
    let scan = scan_lines(Symbols::initial(), lines);
    if scan.error is Some {
        Assembly { words: Seq::empty(), error: scan.error, failed_at: Some(scan.read) }
    } else {
        let translation = translate_lines(scan.symbols, lines);
        Assembly {
            words: translation.words,
            error: translation.error,
            failed_at: if translation.error is Some {
                Some(translation.read)
            } else {
                None
            },
        }
    }
}

/// Makes two passes through the lines of a program.  First the symbol table is populated with
/// entries from L-pseudocommands.  In the second pass, A- and C-commands are translated into
/// binary machine instructions and written to the end of the output.
///
/// Any symbolic A-commands encountered during the second pass are looked up in the symbol table
/// and added if not already present.
///
/// Returns Ok(()) if execution completes without error. Where a line fails, the error names
/// the line by its number, and the output holds the instructions of the lines before it if
/// the line failed in the second pass.
pub fn run(lines: Vec<String>, output: &mut Vec<u8>) -> (done: Result<(), Error>)
    ensures
        final(output)@ == old(output)@ + render(assemble(texts(lines@)).words),
        match assemble(texts(lines@)).error {
            None => done is Ok,
            Some(kind) => failed_at(done, kind, assemble(texts(lines@)).failed_at->0),
        },
{
    let mut parser = Parser::new(lines);
    assert(parser@.remaining() == parser@.lines);
    first_pass(&mut parser)?;
    parser.reset();
    second_pass(&mut parser, output)?;
    Ok(())
}

} // verus!
