//! The configuration of a run of the assembler: the file to read and the file
//! to write, taken from the command line.

use vstd::prelude::*;
use vstd::std_specs::iter::IteratorSpec;
use crate::error::{failed_with, Error, ErrorKind};
use crate::text::chars_of;

verus! {

/// A struct to hold configuration options used when running the assembler.
#[derive(Debug, PartialEq)]
pub struct Config {
    pub infile: String,
    pub outfile: String,
}

/// `text` ends with `ending`.
pub open spec fn ends_with(text: Seq<char>, ending: Seq<char>) -> bool {
    ending.is_suffix_of(text)
}

/// What the arguments of a command line give: the two file names, which
/// follow the name of the program, or the reason why the arguments are
/// refused. The input file must end in `.asm`, the output file in `.hack`.
pub open spec fn config_of(args: Seq<String>) -> Result<(String, String), ErrorKind> {
    if args.len() < 2 {
        Err(ErrorKind::MissingArguments)
    } else if !ends_with(args[1]@, ".asm"@) {
        Err(ErrorKind::InvalidInFileExt)
    } else if args.len() < 3 {
        Err(ErrorKind::MissingOutputFilename)
    } else if !ends_with(args[2]@, ".hack"@) {
        Err(ErrorKind::InvalidOutFileExt)
    } else {
        Ok((args[1], args[2]))
    }
}

/// Decides whether `text` ends with `ending`.
pub fn has_ending(text: &str, ending: &str) -> (yes: bool)
    ensures
        yes == ends_with(text@, ending@),
{
    let whole = chars_of(text);
    let end = chars_of(ending);
    if end.len() > whole.len() {
        return false;
    }
    let offset = whole.len() - end.len();
    let ghost tail = whole@.subrange(offset as int, whole.len() as int);
    let mut at: usize = 0;
    while at < end.len()
        invariant
            whole@ == text@,
            end@ == ending@,
            offset + end.len() == whole.len(),
            tail == whole@.subrange(offset as int, whole.len() as int),
            at <= end.len(),
            forall|i: int| 0 <= i < at ==> tail[i] == end@[i],
        decreases end.len() - at,
    {
        if whole[offset + at] != end[at] {
            return false;
        }
        at = at + 1;
    }
    true
}

impl Config {
    /// The constructor method takes command line arguments, provided to it as an
    /// iterator that yields Strings. The first of them, the path of the
    /// executable, is ignored.
    ///
    /// The contract speaks of what the iterator yields, and so of iterators that
    /// keep to the laws of iteration: those that yield a fixed sequence of items
    /// and then `None`.
    pub fn new<T>(mut args: T) -> (config: Result<Config, Error>) where T: Iterator<Item = String>
        ensures
            args.obeys_prophetic_iter_laws() ==> match config_of(args.remaining()) {
                Ok((infile, outfile)) => config matches Ok(made) && made.infile == infile
                    && made.outfile == outfile,
                Err(kind) => failed_with(config, kind),
            },
    {
        args.next();  // Ignore path of executable.
        let infile = match args.next() {
            Some(arg) => {
                if has_ending(arg.as_str(), ".asm") {
                    arg
                } else {
                    return Err(Error::new(ErrorKind::InvalidInFileExt));
                }
            },
            None => {
                return Err(Error::new(ErrorKind::MissingArguments));
            },
        };
        let outfile = match args.next() {
            Some(arg) => {
                if has_ending(arg.as_str(), ".hack") {
                    arg
                } else {
                    return Err(Error::new(ErrorKind::InvalidOutFileExt));
                }
            },
            None => {
                return Err(Error::new(ErrorKind::MissingOutputFilename));
            },
        };
        Ok(Config { infile, outfile })
    }
}

} // verus!
