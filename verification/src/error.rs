//! The error type shared by all assembler operations.

use vstd::prelude::*;

verus! {

/// General categories of assembler error.
#[derive(Clone, Copy, Debug, PartialEq, Eq, Structural)]
pub enum ErrorKind {
    /// The parser has advanced through all lines of its input.
    EndOfFile,
    /// The function call failed because it cannot take a Command of this type.
    InvalidCmdType,
    /// The provided input path contains a file extension that is not accepted.
    InvalidInFileExt,
    /// A mnemonic of a C-command is not part of the instruction set.
    InvalidMnemonic,
    /// The provided output path contains a file extension that is not accepted.
    InvalidOutFileExt,
    /// A syntax error in the Hack assembly instruction has been identified.
    InvalidSyntax,
    /// An insufficient number of arguments were provided when generating a Config instance,
    MissingArguments,
    /// An output filename was not provided when generating a Config instance.
    MissingOutputFilename,
    /// An attempt to add a new variable to the SymbolTable has failed because there are no more
    /// available RAM addresses.
    RAMFull,
    /// An instruction address is needed that cannot be had: the instructions of the program
    /// are more than can be counted, or a label stands for an address that no entry of the
    /// SymbolTable can hold.
    ROMFull,
    /// An attempt to add a new variable or label to the SymbolTable has failed because it is
    /// already present.
    SymbolExists,
}

#[derive(Debug)]
enum Repr {
    Other(&'static str),
    Line(&'static str, usize),
}

/// The error type for assembler operations.
#[derive(Debug)]
pub struct Error {
    repr: Repr,
}

impl ErrorKind {
    /// The text that describes this kind of error.
    pub open spec fn message(self) -> Seq<char> {
        match self {
            ErrorKind::EndOfFile => "the end of the file has been reached"@,
            ErrorKind::InvalidSyntax => "invalid syntax"@,
            ErrorKind::InvalidMnemonic => "invalid mnemonic"@,
            ErrorKind::InvalidCmdType => "this function cannot act on Commands of this type"@,
            ErrorKind::MissingArguments => "input and output filenames were not provided"@,
            ErrorKind::MissingOutputFilename => "output filename not provided"@,
            ErrorKind::InvalidInFileExt => "invalid input file extension, only '.asm' accepted"@,
            ErrorKind::InvalidOutFileExt => "invalid output file extension, only '.hack' accepted"@,
            ErrorKind::SymbolExists => "this symbol has already been defined"@,
            ErrorKind::RAMFull => "there are no more free RAM addresses"@,
            ErrorKind::ROMFull => "there are no more free ROM addresses"@,
        }
    }

    /// Returns the text that describes this kind of error.
    pub fn as_str(&self) -> (text: &'static str)
        ensures
            text@ == self.message(),
    {
        match *self {
            ErrorKind::EndOfFile => "the end of the file has been reached",
            ErrorKind::InvalidSyntax => "invalid syntax",
            ErrorKind::InvalidMnemonic => "invalid mnemonic",
            ErrorKind::InvalidCmdType => "this function cannot act on Commands of this type",
            ErrorKind::MissingArguments => "input and output filenames were not provided",
            ErrorKind::MissingOutputFilename => "output filename not provided",
            ErrorKind::InvalidInFileExt => "invalid input file extension, only '.asm' accepted",
            ErrorKind::InvalidOutFileExt => "invalid output file extension, only '.hack' accepted",
            ErrorKind::SymbolExists => "this symbol has already been defined",
            ErrorKind::RAMFull => "there are no more free RAM addresses",
            ErrorKind::ROMFull => "there are no more free ROM addresses",
        }
    }
}

impl Error {
    /// The text that this error carries.
    pub closed spec fn text(&self) -> Seq<char> {
        match self.repr {
            Repr::Other(message) => message@,
            Repr::Line(message, _) => message@,
        }
    }

    /// The line of the program that this error names, if it names one. Lines
    /// are counted from 1.
    pub closed spec fn line(&self) -> Option<nat> {
        match self.repr {
            Repr::Other(_) => None,
            Repr::Line(_, line) => Some(line as nat),
        }
    }

    /// The category of this error: the kind whose message the error carries.
    pub closed spec fn kind(&self) -> ErrorKind {
        kind_of_message(self.text())
    }

    /// Creates a new assembler error from a known kind of error. The error names no line.
    pub fn new(error_kind: ErrorKind) -> (error: Error)
        ensures
            error.kind() == error_kind,
            error.text() == error_kind.message(),
            error.line() is None,
    {
        proof {
            lemma_kind_of_message(error_kind);
        }
        Error { repr: Repr::Other(error_kind.as_str()) }
    }

    /// Returns the same error, naming the given line of the program.
    pub fn at_line(self, line: usize) -> (error: Error)
        ensures
            error.kind() == self.kind(),
            error.text() == self.text(),
            error.line() == Some(line as nat),
    {
        Error { repr: Repr::Line(self.message(), line) }
    }

    /// Returns the line of the program that this error names, if it names one.
    pub fn line_number(&self) -> (line: Option<usize>)
        ensures
            match line {
                Some(number) => self.line() == Some(number as nat),
                None => self.line() is None,
            },
    {
        match self.repr {
            Repr::Other(_) => None,
            Repr::Line(_, line) => Some(line),
        }
    }

    /// Returns the text that this error carries.
    pub fn message(&self) -> (text: &'static str)
        ensures
            text@ == self.text(),
    {
        match self.repr {
            Repr::Other(message) => message,
            Repr::Line(message, _) => message,
        }
    }

    /// Renders the error the way it is shown to a user: the word `Error`, a
    /// colon and the text of the error.
    pub fn to_string(&self) -> (rendered: String)
        ensures
            rendered@ == "Error: "@ + self.text(),
    {
        String::from_str("Error: ").concat(self.message())
    }
}

/// Tells whether `result` is a failure of the given kind: an error of that
/// kind, which carries the message of the kind.
pub open spec fn failed_with<T>(result: Result<T, Error>, kind: ErrorKind) -> bool {
    result matches Err(error) && error.kind() == kind && error.text() == kind.message()
}

/// Tells whether `result` is a failure of the given kind that names the given
/// line of the program.
pub open spec fn failed_at<T>(result: Result<T, Error>, kind: ErrorKind, line: nat) -> bool {
    failed_with(result, kind) && result->Err_0.line() == Some(line)
}

/// The kind that a message belongs to. A text that is the message of no kind
/// is counted as `EndOfFile`; no error of this library carries such a text.
pub open spec fn kind_of_message(message: Seq<char>) -> ErrorKind {
    if message == ErrorKind::InvalidCmdType.message() {
        ErrorKind::InvalidCmdType
    } else if message == ErrorKind::InvalidInFileExt.message() {
        ErrorKind::InvalidInFileExt
    } else if message == ErrorKind::InvalidMnemonic.message() {
        ErrorKind::InvalidMnemonic
    } else if message == ErrorKind::InvalidOutFileExt.message() {
        ErrorKind::InvalidOutFileExt
    } else if message == ErrorKind::InvalidSyntax.message() {
        ErrorKind::InvalidSyntax
    } else if message == ErrorKind::MissingArguments.message() {
        ErrorKind::MissingArguments
    } else if message == ErrorKind::MissingOutputFilename.message() {
        ErrorKind::MissingOutputFilename
    } else if message == ErrorKind::RAMFull.message() {
        ErrorKind::RAMFull
    } else if message == ErrorKind::ROMFull.message() {
        ErrorKind::ROMFull
    } else if message == ErrorKind::SymbolExists.message() {
        ErrorKind::SymbolExists
    } else {
        ErrorKind::EndOfFile
    }
}

/// The text of an error is the message of its kind. This holds of every error
/// but one of the kind `EndOfFile`, the kind that also stands for a text that
/// is the message of no kind.
pub proof fn lemma_text_of_kind(error: Error)
    requires
        error.kind() != ErrorKind::EndOfFile,
    ensures
        error.text() == error.kind().message(),
{
}

/// No two kinds of error share a message, so the message of a kind leads back
/// to that kind.
pub proof fn lemma_kind_of_message(kind: ErrorKind)
    ensures
        kind_of_message(kind.message()) == kind,
{
    reveal_strlit("the end of the file has been reached");
    reveal_strlit("invalid syntax");
    reveal_strlit("invalid mnemonic");
    reveal_strlit("this function cannot act on Commands of this type");
    reveal_strlit("input and output filenames were not provided");
    reveal_strlit("output filename not provided");
    reveal_strlit("invalid input file extension, only '.asm' accepted");
    reveal_strlit("invalid output file extension, only '.hack' accepted");
    reveal_strlit("this symbol has already been defined");
    reveal_strlit("there are no more free RAM addresses");
    reveal_strlit("there are no more free ROM addresses");
    let end_of_file = "the end of the file has been reached"@;
    let symbol_exists = "this symbol has already been defined"@;
    let ram_full = "there are no more free RAM addresses"@;
    let rom_full = "there are no more free ROM addresses"@;
    assert(end_of_file[2] != symbol_exists[2]);
    assert(end_of_file[3] != ram_full[3]);
    assert(end_of_file[3] != rom_full[3]);
    assert(symbol_exists[2] != ram_full[2]);
    assert(symbol_exists[2] != rom_full[2]);
    assert(ram_full[24] != rom_full[24]);
    assert(end_of_file.len() == 36);
    assert("invalid syntax"@.len() == 14);
    assert("invalid mnemonic"@.len() == 16);
    assert("this function cannot act on Commands of this type"@.len() == 49);
    assert("input and output filenames were not provided"@.len() == 44);
    assert("output filename not provided"@.len() == 28);
    assert("invalid input file extension, only '.asm' accepted"@.len() == 50);
    assert("invalid output file extension, only '.hack' accepted"@.len() == 52);
}

} // verus!
