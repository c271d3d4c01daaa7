//! The parser: it walks through the lines of a program, holds the command of
//! the line it has reached, and takes that command apart.

use vstd::prelude::*;
use vstd::utf8::encode_utf8;
use crate::error::{failed_at, failed_with, Error, ErrorKind};
use crate::symbols::{SymbolTable, Symbols, MAX_INSTRUCTIONS};
use crate::syntax::{
    a_command, c_command, command_text, comp_of, dest_of, find_char, find_comment, find_text,
    is_a_command, is_c_command, is_l_command, jump_of, l_command, label_of,
    lemma_comment_start, lemma_trim_bounds, operand_of,
};
use crate::text::chars_of;

verus! {

/// Different types of Command; A- or C-instructions, or L-pseudocommands along with their String
/// representation.
#[derive(Debug, PartialEq)]
pub enum Command {
    ACommand(String),
    CCommand(String),
    LCommand(String),
}

/// The mathematical model of a command: its kind, and its text as it stands
/// in the line, without comment and surrounding white space.
pub enum Instruction {
    /// An A-command: `@`, then a literal address or a symbol.
    Address(Seq<char>),
    /// A C-command: `dest=comp`, `comp;jump` or `dest=comp;jump`.
    Compute(Seq<char>),
    /// An L-command: a symbol in round brackets.
    Label(Seq<char>),
}

impl View for Command {
    type V = Instruction;

    open spec fn view(&self) -> Instruction {
        match self {
            Command::ACommand(text) => Instruction::Address(text@),
            Command::CCommand(text) => Instruction::Compute(text@),
            Command::LCommand(text) => Instruction::Label(text@),
        }
    }
}

impl Instruction {
    /// The text of the command.
    pub open spec fn text(self) -> Seq<char> {
        match self {
            Instruction::Address(text) => text,
            Instruction::Compute(text) => text,
            Instruction::Label(text) => text,
        }
    }

    /// The text has the syntax of the kind.
    pub open spec fn wf(self) -> bool {
        match self {
            Instruction::Address(text) => is_a_command(text),
            Instruction::Compute(text) => is_c_command(text),
            Instruction::Label(text) => is_l_command(text),
        }
    }

    /// Whether the command takes a place in the instruction memory: an A- or
    /// a C-command does, an L-command does not.
    pub open spec fn takes_address(self) -> bool {
        !(self is Label)
    }
}

/// The command that a text is, if it is one: the text decides the kind.
pub open spec fn instruction_of(text: Seq<char>) -> Option<Instruction> {
    if is_a_command(text) {
        Some(Instruction::Address(text))
    } else if is_l_command(text) {
        Some(Instruction::Label(text))
    } else if is_c_command(text) {
        Some(Instruction::Compute(text))
    } else {
        None
    }
}

/// What a line of a program holds: no command, a command, or a text that is
/// no command, which is a syntax error.
pub open spec fn parse_line(line: Seq<char>) -> Result<Option<Instruction>, ErrorKind> {
    let text = command_text(line);
    if text.len() == 0 {
        Ok(None)
    } else {
        match instruction_of(text) {
            Some(instruction) => Ok(Some(instruction)),
            None => Err(ErrorKind::InvalidSyntax),
        }
    }
}

/// The command that a parser holds once it has read `line`: the command of
/// the line, and none where the line has none or is malformed.
pub open spec fn command_of(line: Seq<char>) -> Option<Instruction> {
    match parse_line(line) {
        Ok(command) => command,
        Err(_) => None,
    }
}

/// The text of each line.
pub open spec fn texts(lines: Seq<String>) -> Seq<Seq<char>> {
    Seq::new(lines.len(), |i: int| lines[i]@)
}

/// The model of an optional command.
pub open spec fn command_view(command: Option<Command>) -> Option<Instruction> {
    match command {
        Some(command) => Some(command@),
        None => None,
    }
}

/// The model of an optional string.
pub open spec fn text_view(text: Option<String>) -> Option<Seq<char>> {
    match text {
        Some(text) => Some(text@),
        None => None,
    }
}

/// The number of bytes that a text takes in UTF-8.
pub open spec fn byte_len(text: Seq<char>) -> nat {
    encode_utf8(text).len()
}

/// The mathematical model of a parser.
pub struct ParserState {
    /// The lines of the program.
    pub lines: Seq<Seq<char>>,
    /// The number of lines read since the start or the last reset.
    pub position: nat,
    /// The line read last; empty before the first line and past the last.
    pub raw_line: Seq<char>,
    /// The command of the line read last.
    pub command: Option<Instruction>,
    /// The symbol table.
    pub symbols: Symbols,
}

impl ParserState {
    /// What holds of every parser: it is not past the end of its lines, its
    /// command is that of its line, and its symbol table is well formed.
    pub open spec fn wf(self) -> bool {
        &&& self.position <= self.lines.len()
        &&& self.command == command_of(self.raw_line)
        &&& self.symbols.wf()
    }

    /// The parser as it is created for `lines`.
    pub open spec fn initial(lines: Seq<Seq<char>>) -> ParserState {
        ParserState {
            lines,
            position: 0,
            raw_line: Seq::empty(),
            command: None,
            symbols: Symbols::initial(),
        }
    }

    /// No line is left to read.
    pub open spec fn at_end(self) -> bool {
        self.position >= self.lines.len()
    }

    /// The lines that are left to read.
    pub open spec fn remaining(self) -> Seq<Seq<char>> {
        self.lines.skip(self.position as int)
    }

    /// The parser after it has read the next line; at the end, the parser
    /// with no line and no command.
    pub open spec fn advance(self) -> ParserState {
        if self.at_end() {
            ParserState { raw_line: Seq::empty(), command: None, ..self }
        } else {
            let line = self.lines[self.position as int];
            ParserState {
                position: self.position + 1,
                raw_line: line,
                command: command_of(line),
                ..self
            }
        }
    }

    /// The parser back at the start of its lines, with no line and no command.
    /// The symbol table stays.
    pub open spec fn reset(self) -> ParserState {
        ParserState { position: 0, raw_line: Seq::empty(), command: None, ..self }
    }

    /// The parser with another symbol table.
    pub open spec fn with_symbols(self, symbols: Symbols) -> ParserState {
        ParserState { symbols, ..self }
    }
}

/// A struct that encapsulates the current state of the parser.  It holds the lines of the input,
/// as well as the last raw line read and any command contained within that line.  A
/// SymbolTable tracks variable and label symbols along with their allocated RAM/ROM addresses.
pub struct Parser {
    lines: Vec<String>,
    position: usize,
    raw_line: String,
    command: Option<Command>,
    symbol_table: SymbolTable,
}

impl View for Parser {
    type V = ParserState;

    closed spec fn view(&self) -> ParserState {
        ParserState {
            lines: texts(self.lines@),
            position: self.position as nat,
            raw_line: self.raw_line@,
            command: command_view(self.command),
            symbols: self.symbol_table@,
        }
    }
}

impl Parser {
    /// The invariant of the parser; see [`ParserState::wf`].
    pub open spec fn wf(&self) -> bool {
        self@.wf()
    }

    /// Takes the lines of a program, each as it was read, with the line break at its end if it
    /// had one, and returns a new Parser instance that stands before the first line.
    pub fn new(lines: Vec<String>) -> (parser: Parser)
        ensures
            parser@ == ParserState::initial(texts(lines@)),
            parser.wf(),
    {
        proof {
            lemma_no_command_in_empty_line();
        }
        Parser {
            lines,
            position: 0,
            raw_line: String::new(),
            command: None,
            symbol_table: SymbolTable::new(),
        }
    }

    /// Reads the next line and extracts a command string if present, updating the 'command' option
    /// field of the Parser instance appropriately.
    ///
    /// Returns a result containing the number of bytes present in the line read.
    ///
    /// Ok(0) will be returned when the end of the lines is reached. A line that is no command
    /// is refused with `InvalidSyntax`, in an error that names the line by its number; it is
    /// then the raw line of the parser, which holds no command.
    pub fn advance(&mut self) -> (bytes: Result<usize, Error>)
        requires
            old(self).wf(),
        ensures
            final(self).wf(),
            final(self)@ == old(self)@.advance(),
            match parse_line(final(self)@.raw_line) {
                Ok(_) => bytes matches Ok(count) && count == byte_len(final(self)@.raw_line),
                Err(kind) => failed_at(bytes, kind, final(self)@.position),
            },
            old(self)@.at_end() ==> bytes == Ok::<usize, Error>(0),
    {
        if self.position < self.lines.len() {
            self.raw_line = self.lines[self.position].clone();
            self.position = self.position + 1;
        } else {
            self.raw_line = String::new();
            proof {
                lemma_no_command_in_empty_line();
            }
        }
        let bytes = self.raw_line.as_str().as_bytes().len();
        self.set_command()?;
        Ok(bytes)
    }

    /// Takes the currently loaded raw line, strips it of any comments and
    /// trims any remaining leading or trailing whitespace.
    ///
    /// If the remaining line content is not empty, then it is used to set the 'command' field of
    /// the Parser instance.  Otherwise the 'command' field is set to None.
    fn set_command(&mut self) -> (done: Result<usize, Error>)
        ensures
            final(self)@ == (ParserState {
                command: command_of(old(self)@.raw_line),
                ..old(self)@
            }),
            match parse_line(old(self)@.raw_line) {
                Ok(_) => done == Ok::<usize, Error>(0),
                Err(kind) => failed_at(done, kind, old(self)@.position),
            },
    {
        self.command = None;
        let line = self.raw_line.clone();
        let chars = chars_of(line.as_str());
        let comment_offset = find_comment(&chars);
        let (start, end) = find_text(&chars, comment_offset);
        if start == end {
            return Ok(0);
        }
        let cmd = line.as_str().substring_char(start, end);
        self.set_command_type(cmd)
    }

    /// Takes an input &str and determines whether it is an A-, C- or L-command, setting the
    /// 'command' field of the Parser instance appropriately.
    ///
    /// Returns Ok(0) upon successful execution, and `InvalidSyntax` where the text is none of
    /// the three, in an error that names the line read last; the 'command' field is then left
    /// as it is.
    fn set_command_type(&mut self, cmd: &str) -> (done: Result<usize, Error>)
        ensures
            match instruction_of(cmd@) {
                Some(instruction) => {
                    &&& done == Ok::<usize, Error>(0)
                    &&& final(self)@ == (ParserState {
                        command: Some(instruction),
                        ..old(self)@
                    })
                },
                None => {
                    &&& failed_at(done, ErrorKind::InvalidSyntax, old(self)@.position)
                    &&& final(self)@ == old(self)@
                },
            },
    {
        let chars = chars_of(cmd);
        if a_command(&chars) {
            self.command = Some(Command::ACommand(String::from_str(cmd)));
        } else if l_command(&chars) {
            self.command = Some(Command::LCommand(String::from_str(cmd)));
        } else if c_command(&chars) {
            self.command = Some(Command::CCommand(String::from_str(cmd)));
        } else {
            return Err(Error::new(ErrorKind::InvalidSyntax).at_line(self.position));
        }
        Ok(0)
    }

    /// Returns a Result containing the variable or label symbol, or decimal string contained
    /// within the current command.
    ///
    /// This method can only be called on A- or L-commands and will otherwise return an error.
    pub fn symbol(&self) -> (symbol: Result<String, Error>)
        requires
            self.wf(),
        ensures
            match self@.command {
                Some(Instruction::Address(text)) => symbol matches Ok(name) && name@ == operand_of(
                    text,
                ),
                Some(Instruction::Label(text)) => symbol matches Ok(name) && name@ == label_of(
                    text,
                ),
                _ => failed_with(symbol, ErrorKind::InvalidCmdType),
            },
    {
        match &self.command {
            Some(Command::ACommand(cmd)) => {
                let len = cmd.as_str().unicode_len();
                Ok(String::from_str(cmd.as_str().substring_char(1, len)))
            },
            Some(Command::LCommand(cmd)) => {
                let len = cmd.as_str().unicode_len();
                Ok(String::from_str(cmd.as_str().substring_char(1, len - 1)))
            },
            _ => Err(Error::new(ErrorKind::InvalidCmdType)),
        }
    }

    /// Returns an Option containing the 'dest' component of the current C-command string, within
    /// an outer Result.
    ///
    /// This method can only be called on C-commands and will otherwise return an error.
    pub fn dest(&self) -> (dest: Result<Option<String>, Error>)
        requires
            self.wf(),
        ensures
            match self@.command {
                Some(Instruction::Compute(text)) => dest matches Ok(part) && text_view(part)
                    == dest_of(text),
                _ => failed_with(dest, ErrorKind::InvalidCmdType),
            },
    {
        match &self.command {
            Some(Command::CCommand(cmd)) => {
                let chars = chars_of(cmd.as_str());
                match find_char(&chars, '=') {
                    Some(equals) => {
                        Ok(Some(String::from_str(cmd.as_str().substring_char(0, equals))))
                    },
                    None => Ok(None),
                }
            },
            _ => Err(Error::new(ErrorKind::InvalidCmdType)),
        }
    }

    /// Returns an Option containing the 'comp' component of the current C-command string, within
    /// an outer Result. A C-command always has one.
    ///
    /// This method can only be called on C-commands and will otherwise return an error.
    pub fn comp(&self) -> (comp: Result<Option<String>, Error>)
        requires
            self.wf(),
        ensures
            match self@.command {
                Some(Instruction::Compute(text)) => comp matches Ok(part) && text_view(part)
                    == Some(comp_of(text)),
                _ => failed_with(comp, ErrorKind::InvalidCmdType),
            },
    {
        match &self.command {
            Some(Command::CCommand(cmd)) => {
                let chars = chars_of(cmd.as_str());
                let start = match find_char(&chars, '=') {
                    Some(equals) => equals + 1,
                    None => 0,
                };
                let end = match find_char(&chars, ';') {
                    Some(semicolon) => semicolon,
                    None => chars.len(),
                };
                Ok(Some(String::from_str(cmd.as_str().substring_char(start, end))))
            },
            _ => Err(Error::new(ErrorKind::InvalidCmdType)),
        }
    }

    /// Returns an Option containing the 'jump' component of the current C-command string, within
    /// an outer Result.
    ///
    /// This method can only be called on C-commands and will otherwise return an error.
    pub fn jump(&self) -> (jump: Result<Option<String>, Error>)
        requires
            self.wf(),
        ensures
            match self@.command {
                Some(Instruction::Compute(text)) => jump matches Ok(part) && text_view(part)
                    == jump_of(text),
                _ => failed_with(jump, ErrorKind::InvalidCmdType),
            },
    {
        match &self.command {
            Some(Command::CCommand(cmd)) => {
                let chars = chars_of(cmd.as_str());
                match find_char(&chars, ';') {
                    Some(semicolon) => {
                        assert(cmd@.skip(semicolon + 1) == cmd@.subrange(
                            semicolon + 1,
                            chars.len() as int,
                        ));
                        Ok(
                            Some(
                                String::from_str(
                                    cmd.as_str().substring_char(semicolon + 1, chars.len()),
                                ),
                            ),
                        )
                    },
                    None => Ok(None),
                }
            },
            _ => Err(Error::new(ErrorKind::InvalidCmdType)),
        }
    }

    /// Returns a reference to the last raw line read by the Parser.
    pub fn get_raw_line(&self) -> (line: &String)
        ensures
            line@ == self@.raw_line,
    {
        &self.raw_line
    }

    /// Returns a reference to an Option containing the current Command loaded into the Parser.
    pub fn get_command(&self) -> (command: &Option<Command>)
        ensures
            command_view(*command) == self@.command,
    {
        &self.command
    }

    /// Returns the number of the line read last, counted from 1: the number of lines read
    /// since the start or the last reset.
    pub fn line_number(&self) -> (line: usize)
        ensures
            line == self@.position,
    {
        self.position
    }

    /// Tells whether the Parser has read all its lines.
    pub fn at_end(&self) -> (yes: bool)
        ensures
            yes == self@.at_end(),
    {
        self.position >= self.lines.len()
    }

    /// The ROM address that the next label gets.
    pub fn rom_address(&self) -> (address: u16)
        ensures
            address == self@.symbols.rom_address,
    {
        self.symbol_table.rom_address()
    }

    /// Increments the next available RAM address used when adding a new variable to the symbol
    /// table.
    pub fn inc_ram_address(&mut self) -> (done: Result<u8, Error>)
        requires
            old(self).wf(),
        ensures
            final(self).wf(),
            match old(self)@.symbols.inc_ram_address() {
                Ok(symbols) => {
                    &&& done == Ok::<u8, Error>(0)
                    &&& final(self)@ == old(self)@.with_symbols(symbols)
                },
                Err(kind) => failed_with(done, kind) && final(self)@ == old(self)@,
            },
    {
        self.symbol_table.inc_ram_address()
    }

    /// Increments the next available ROM address used when adding a new label to the symbol
    /// table.
    pub fn inc_rom_address(&mut self)
        requires
            old(self).wf(),
            old(self)@.symbols.rom_address < MAX_INSTRUCTIONS,
        ensures
            final(self).wf(),
            final(self)@ == old(self)@.with_symbols(old(self)@.symbols.inc_rom_address()),
    {
        self.symbol_table.inc_rom_address();
    }

    /// Adds a new label to the symbol table and returns a Result containing the allocated ROM
    /// address.
    pub fn insert_label(&mut self, symbol: &str) -> (address: Result<u16, Error>)
        requires
            old(self).wf(),
        ensures
            final(self).wf(),
            match old(self)@.symbols.insert_label(symbol@) {
                Ok((symbols, at)) => {
                    &&& address == Ok::<u16, Error>(at)
                    &&& final(self)@ == old(self)@.with_symbols(symbols)
                },
                Err(kind) => failed_with(address, kind) && final(self)@ == old(self)@,
            },
    {
        self.symbol_table.insert_label(symbol)
    }

    /// Adds a new variable to the symbol table and returns a Result containing the allocated RAM
    /// address.
    pub fn insert_variable(&mut self, symbol: &str) -> (address: Result<u16, Error>)
        requires
            old(self).wf(),
        ensures
            final(self).wf(),
            match old(self)@.symbols.insert_variable(symbol@) {
                Ok((symbols, at)) => {
                    &&& address == Ok::<u16, Error>(at)
                    &&& final(self)@ == old(self)@.with_symbols(symbols)
                },
                Err(kind) => failed_with(address, kind) && final(self)@ == old(self)@,
            },
    {
        self.symbol_table.insert_variable(symbol)
    }

    /// Takes a symbol &str and returns an Option containing the RAM/ROM address allocated to it.
    /// None is returned if the symbol is not present in the symbol table.
    pub fn get_symbol_address(&self, symbol: &str) -> (address: Option<u16>)
        ensures
            address == self@.symbols.get(symbol@),
    {
        self.symbol_table.get_address(symbol)
    }

    /// Clears the current raw line and command loaded into the Parser instance and resets it back
    /// to reading from the first line.
    pub fn reset(&mut self)
        requires
            old(self).wf(),
        ensures
            final(self).wf(),
            final(self)@ == old(self)@.reset(),
    {
        proof {
            lemma_no_command_in_empty_line();
        }
        self.position = 0;
        self.raw_line = String::new();
        self.command = None;
    }
}

/// The command of a line has the syntax of its kind, and its text is the
/// command text of the line.
pub proof fn lemma_parsed_command_is_well_formed(line: Seq<char>)
    ensures
        match parse_line(line) {
            Ok(Some(instruction)) => instruction.wf() && instruction.text() == command_text(line),
            Ok(None) => command_text(line).len() == 0,
            Err(kind) => kind == ErrorKind::InvalidSyntax,
        },
{
}

/// An empty line holds no command.
pub proof fn lemma_no_command_in_empty_line()
    ensures
        parse_line(Seq::<char>::empty()) == Ok::<Option<Instruction>, ErrorKind>(None),
        command_of(Seq::<char>::empty()) == None::<Instruction>,
{
    let line = Seq::<char>::empty();
    lemma_comment_start(line, 0);
    assert(line.take(0) == line);
    lemma_trim_bounds(line, 0, 0);
}

/// A line with no character takes no byte, and every other line takes some.
pub proof fn lemma_byte_len_zero(text: Seq<char>)
    ensures
        byte_len(text) == 0 <==> text.len() == 0,
{
}

} // verus!
