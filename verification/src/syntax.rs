//! The syntax of a line of Hack assembly.
//!
//! A line is an optional command followed by an optional comment, which begins
//! with two slashes. The command is what is left once the comment and the
//! white space around it are taken away. There are three commands:
//!
//! - an A-command, `@` followed by a decimal number or a symbol;
//! - an L-command, a symbol in round brackets;
//! - a C-command, of the form `dest=comp`, `comp;jump` or `dest=comp;jump`.
//!
//! The spec functions of this file define that syntax over sequences of
//! characters; the executable functions decide it for the characters of a
//! string.

use vstd::prelude::*;
use crate::symbols::MAX_ADDRESS;

verus! {

/// A letter of the Latin alphabet, small or capital.
pub open spec fn is_alpha(c: char) -> bool {
    ('a' <= c && c <= 'z') || ('A' <= c && c <= 'Z')
}

/// A decimal digit.
pub open spec fn is_digit(c: char) -> bool {
    '0' <= c && c <= '9'
}

/// A character that a symbol may hold: a letter, a digit, or one of `_`, `.`,
/// `$` and `:`.
pub open spec fn is_symbol_char(c: char) -> bool {
    is_alpha(c) || is_digit(c) || c == '_' || c == '.' || c == '$' || c == ':'
}

/// A character that the computation of a C-command may hold: a letter, `0`,
/// `1`, or one of the operators `-`, `!`, `+`, `&` and `|`.
pub open spec fn is_comp_char(c: char) -> bool {
    is_alpha(c) || c == '0' || c == '1' || c == '-' || c == '!' || c == '+' || c == '&' || c == '|'
}

/// White space: the characters that Unicode gives the property `White_Space`.
pub open spec fn is_whitespace(c: char) -> bool {
    let code = c as u32;
    ||| 0x0009 <= code <= 0x000D
    ||| code == 0x0020
    ||| code == 0x0085
    ||| code == 0x00A0
    ||| code == 0x1680
    ||| 0x2000 <= code <= 0x200A
    ||| code == 0x2028
    ||| code == 0x2029
    ||| code == 0x202F
    ||| code == 0x205F
    ||| code == 0x3000
}

/// Decides [`is_alpha`].
pub fn alpha(c: char) -> (yes: bool)
    ensures
        yes == is_alpha(c),
{
    (c >= 'a' && c <= 'z') || (c >= 'A' && c <= 'Z')
}

/// Decides [`is_digit`].
pub fn digit(c: char) -> (yes: bool)
    ensures
        yes == is_digit(c),
{
    c >= '0' && c <= '9'
}

/// Decides [`is_symbol_char`].
pub fn symbol_char(c: char) -> (yes: bool)
    ensures
        yes == is_symbol_char(c),
{
    alpha(c) || digit(c) || c == '_' || c == '.' || c == '$' || c == ':'
}

/// Decides [`is_comp_char`].
pub fn comp_char(c: char) -> (yes: bool)
    ensures
        yes == is_comp_char(c),
{
    alpha(c) || c == '0' || c == '1' || c == '-' || c == '!' || c == '+' || c == '&' || c == '|'
}

/// Decides [`is_whitespace`].
pub fn whitespace(c: char) -> (yes: bool)
    ensures
        yes == is_whitespace(c),
{
    let code: u32 = c as u32;
    (0x0009 <= code && code <= 0x000D) || code == 0x0020 || code == 0x0085 || code == 0x00A0
        || code == 0x1680 || (0x2000 <= code && code <= 0x200A) || code == 0x2028 || code
        == 0x2029 || code == 0x202F || code == 0x205F || code == 0x3000
}

/// Two slashes in a row begin at `at`.
pub open spec fn slashes_at(line: Seq<char>, at: int) -> bool {
    0 <= at && at + 1 < line.len() && line[at] == '/' && line[at + 1] == '/'
}

/// `at` is where the comment of `line` begins: at the first two slashes in a
/// row, or at the end of a line that has none.
pub open spec fn is_comment_start(line: Seq<char>, at: int) -> bool {
    &&& 0 <= at <= line.len()
    &&& at == line.len() || slashes_at(line, at)
    &&& forall|i: int| 0 <= i < at ==> !slashes_at(line, i)
}

/// Where the comment of `line` begins.
pub open spec fn comment_start(line: Seq<char>) -> int {
    choose|at: int| is_comment_start(line, at)
}

/// `at` is where the text of `text` begins: at its first character that is no
/// white space, or at the end if there is none.
pub open spec fn is_trim_start(text: Seq<char>, at: int) -> bool {
    &&& 0 <= at <= text.len()
    &&& at < text.len() ==> !is_whitespace(text[at])
    &&& forall|i: int| 0 <= i < at ==> is_whitespace(#[trigger] text[i])
}

/// `at` is where the text of `text` ends: behind its last character that is
/// no white space, or at the start if there is none.
pub open spec fn is_trim_end(text: Seq<char>, at: int) -> bool {
    &&& 0 <= at <= text.len()
    &&& 0 < at ==> !is_whitespace(text[at - 1])
    &&& forall|i: int| at <= i < text.len() ==> is_whitespace(#[trigger] text[i])
}

/// Where the text of `text` begins.
pub open spec fn trim_start(text: Seq<char>) -> int {
    choose|at: int| is_trim_start(text, at)
}

/// Where the text of `text` ends.
pub open spec fn trim_end(text: Seq<char>) -> int {
    choose|at: int| is_trim_end(text, at)
}

/// `text` without the white space at its start and at its end.
pub open spec fn trim(text: Seq<char>) -> Seq<char> {
    if trim_start(text) < trim_end(text) {
        text.subrange(trim_start(text), trim_end(text))
    } else {
        Seq::empty()
    }
}

/// The command of a line: the line without its comment and without the white
/// space around what is left. It is empty where the line holds no command.
pub open spec fn command_text(line: Seq<char>) -> Seq<char> {
    trim(line.take(comment_start(line)))
}

/// A line has one place where its comment begins.
pub proof fn lemma_comment_start(line: Seq<char>, at: int)
    requires
        is_comment_start(line, at),
    ensures
        comment_start(line) == at,
{
}

/// A text has one place where it begins and one where it ends.
pub proof fn lemma_trim_bounds(text: Seq<char>, start: int, end: int)
    requires
        is_trim_start(text, start),
        is_trim_end(text, end),
    ensures
        trim_start(text) == start,
        trim_end(text) == end,
{
}

/// Finds where the comment of a line begins.
pub fn find_comment(line: &Vec<char>) -> (at: usize)
    ensures
        at == comment_start(line@),
        at <= line.len(),
{
    let mut at: usize = 0;
    while at < line.len()
        invariant
            at <= line.len(),
            forall|i: int| 0 <= i < at ==> !slashes_at(line@, i),
        decreases line.len() - at,
    {
        if at + 1 < line.len() && line[at] == '/' && line[at + 1] == '/' {
            proof {
                lemma_comment_start(line@, at as int);
            }
            return at;
        }
        at = at + 1;
    }
    proof {
        lemma_comment_start(line@, at as int);
    }
    at
}

/// Finds the text among the first `len` characters of a line: where it begins
/// and where it ends. Where there is nothing but white space, the two are
/// the same.
pub fn find_text(line: &Vec<char>, len: usize) -> (bounds: (usize, usize))
    requires
        len <= line.len(),
    ensures
        bounds.0 <= bounds.1 <= len,
        trim(line@.take(len as int)) == line@.subrange(bounds.0 as int, bounds.1 as int),
{
    let ghost text = line@.take(len as int);
    let mut start: usize = 0;
    while start < len && whitespace(line[start])
        invariant
            start <= len <= line.len(),
            text == line@.take(len as int),
            forall|i: int| 0 <= i < start ==> is_whitespace(#[trigger] text[i]),
        decreases len - start,
    {
        start = start + 1;
    }
    let mut end: usize = len;
    while end > 0 && whitespace(line[end - 1])
        invariant
            end <= len <= line.len(),
            text == line@.take(len as int),
            forall|i: int| end <= i < len ==> is_whitespace(#[trigger] text[i]),
        decreases end,
    {
        end = end - 1;
    }
    proof {
        lemma_trim_bounds(text, start as int, end as int);
    }
    if start < end {
        (start, end)
    } else {
        (start, start)
    }
}

/// A symbol: one or more symbol characters, the first of them no digit.
pub open spec fn is_symbol(text: Seq<char>) -> bool {
    &&& text.len() > 0
    &&& !is_digit(text[0])
    &&& forall|i: int| 0 <= i < text.len() ==> is_symbol_char(#[trigger] text[i])
}

/// A number: one or more decimal digits.
pub open spec fn is_number(text: Seq<char>) -> bool {
    &&& text.len() > 0
    &&& forall|i: int| 0 <= i < text.len() ==> is_digit(#[trigger] text[i])
}

/// The value of a decimal digit.
pub open spec fn digit_value(c: char) -> nat {
    (c as u32 - '0' as u32) as nat
}

/// The value of a sequence of decimal digits, read as a decimal number.
pub open spec fn decimal_value(text: Seq<char>) -> nat
    decreases text.len(),
{
    if text.len() == 0 {
        0
    } else {
        decimal_value(text.drop_last()) * 10 + digit_value(text.last())
    }
}

/// A literal address: a number whose value fits in 15 bits.
pub open spec fn is_literal(text: Seq<char>) -> bool {
    is_number(text) && decimal_value(text) <= MAX_ADDRESS
}

/// One or more letters: the form of a `dest` and of a `jump` mnemonic.
pub open spec fn is_letters(text: Seq<char>) -> bool {
    &&& text.len() > 0
    &&& forall|i: int| 0 <= i < text.len() ==> is_alpha(#[trigger] text[i])
}

/// One or more computation characters: the form of a `comp` mnemonic.
pub open spec fn is_computation(text: Seq<char>) -> bool {
    &&& text.len() > 0
    &&& forall|i: int| 0 <= i < text.len() ==> is_comp_char(#[trigger] text[i])
}

/// An A-command: `@`, then a literal address or a symbol.
pub open spec fn is_a_command(text: Seq<char>) -> bool {
    &&& text.len() > 0
    &&& text[0] == '@'
    &&& is_literal(text.skip(1)) || is_symbol(text.skip(1))
}

/// An L-command: a symbol in round brackets.
pub open spec fn is_l_command(text: Seq<char>) -> bool {
    &&& text.len() >= 2
    &&& text[0] == '('
    &&& text.last() == ')'
    &&& is_symbol(text.subrange(1, text.len() - 1))
}

/// A C-command: `dest=comp`, `comp;jump` or `dest=comp;jump`, told apart by
/// whether the text holds `=` and `;`. The destination and the jump are made
/// of letters, the computation of computation characters.
pub open spec fn is_c_command(text: Seq<char>) -> bool {
    match (text.index_of_first('='), text.index_of_first(';')) {
        (Some(equals), None) => {
            &&& is_letters(text.take(equals))
            &&& is_computation(text.skip(equals + 1))
        },
        (None, Some(semicolon)) => {
            &&& is_computation(text.take(semicolon))
            &&& is_letters(text.skip(semicolon + 1))
        },
        (Some(equals), Some(semicolon)) => {
            &&& equals < semicolon
            &&& is_letters(text.take(equals))
            &&& is_computation(text.subrange(equals + 1, semicolon))
            &&& is_letters(text.skip(semicolon + 1))
        },
        (None, None) => false,
    }
}

/// What an A-command carries: the text behind the `@`.
pub open spec fn operand_of(text: Seq<char>) -> Seq<char> {
    text.skip(1)
}

/// What an L-command carries: the symbol between the brackets.
pub open spec fn label_of(text: Seq<char>) -> Seq<char> {
    text.subrange(1, text.len() - 1)
}

/// The destination of a C-command: the text in front of `=`, if there is one.
pub open spec fn dest_of(text: Seq<char>) -> Option<Seq<char>> {
    match text.index_of_first('=') {
        Some(equals) => Some(text.take(equals)),
        None => None,
    }
}

/// The computation of a C-command: the text behind `=`, or from the start,
/// up to `;`, or to the end.
pub open spec fn comp_of(text: Seq<char>) -> Seq<char> {
    let start = match text.index_of_first('=') {
        Some(equals) => equals + 1,
        None => 0,
    };
    let end = match text.index_of_first(';') {
        Some(semicolon) => semicolon,
        None => text.len() as int,
    };
    text.subrange(start, end)
}

/// The jump of a C-command: the text behind `;`, if there is one.
pub open spec fn jump_of(text: Seq<char>) -> Option<Seq<char>> {
    match text.index_of_first(';') {
        Some(semicolon) => Some(text.skip(semicolon + 1)),
        None => None,
    }
}

/// The three commands are told apart by their first character: `@` begins an
/// A-command, `(` an L-command, and a letter or another computation
/// character a C-command. So a text is at most one of the three.
pub proof fn lemma_commands_differ(text: Seq<char>)
    ensures
        is_a_command(text) ==> text[0] == '@',
        is_l_command(text) ==> text[0] == '(',
        is_c_command(text) ==> is_comp_char(text[0]),
        !(is_a_command(text) && is_l_command(text)),
        !(is_a_command(text) && is_c_command(text)),
        !(is_l_command(text) && is_c_command(text)),
{
    if is_c_command(text) {
        text.index_of_first_ensures('=');
        text.index_of_first_ensures(';');
        match (text.index_of_first('='), text.index_of_first(';')) {
            (Some(equals), _) => {
                assert(text.take(equals)[0] == text[0]);
            },
            (None, Some(semicolon)) => {
                assert(text.take(semicolon)[0] == text[0]);
            },
            (None, None) => {},
        }
    }
}

/// The digits read so far never count for more than the whole number.
pub proof fn lemma_decimal_value_prefix(text: Seq<char>, len: int)
    requires
        0 <= len <= text.len(),
    ensures
        decimal_value(text.take(len)) <= decimal_value(text),
    decreases text.len(),
{
    if len == text.len() {
        assert(text.take(len) == text);
    } else {
        assert(text.drop_last().take(len) == text.take(len));
        lemma_decimal_value_prefix(text.drop_last(), len);
    }
}

/// Finds the first place of `wanted` in `text`.
pub fn find_char(text: &Vec<char>, wanted: char) -> (found: Option<usize>)
    ensures
        match found {
            Some(at) => at < text.len() && text@.index_of_first(wanted) == Some(at as int),
            None => text@.index_of_first(wanted) is None,
        },
{
    let mut at: usize = 0;
    while at < text.len()
        invariant
            at <= text.len(),
            forall|i: int| 0 <= i < at ==> text@[i] != wanted,
        decreases text.len() - at,
    {
        if text[at] == wanted {
            proof {
                text@.index_of_first_ensures(wanted);
            }
            return Some(at);
        }
        at = at + 1;
    }
    proof {
        text@.index_of_first_ensures(wanted);
    }
    None
}

/// Decides whether the characters from `from` up to `to` are a symbol.
pub fn symbol_in(text: &Vec<char>, from: usize, to: usize) -> (yes: bool)
    requires
        from <= to <= text.len(),
    ensures
        yes == is_symbol(text@.subrange(from as int, to as int)),
{
    let ghost part = text@.subrange(from as int, to as int);
    if from == to || digit(text[from]) {
        return false;
    }
    let mut at: usize = from;
    while at < to
        invariant
            from <= at <= to <= text.len(),
            part == text@.subrange(from as int, to as int),
            forall|i: int| 0 <= i < at - from ==> is_symbol_char(#[trigger] part[i]),
        decreases to - at,
    {
        if !symbol_char(text[at]) {
            assert(part[at - from] == text@[at as int]);
            return false;
        }
        at = at + 1;
    }
    true
}

/// Decides whether the characters from `from` up to `to` are one or more
/// letters.
pub fn letters_in(text: &Vec<char>, from: usize, to: usize) -> (yes: bool)
    requires
        from <= to <= text.len(),
    ensures
        yes == is_letters(text@.subrange(from as int, to as int)),
{
    let ghost part = text@.subrange(from as int, to as int);
    let mut at: usize = from;
    while at < to
        invariant
            from <= at <= to <= text.len(),
            part == text@.subrange(from as int, to as int),
            forall|i: int| 0 <= i < at - from ==> is_alpha(#[trigger] part[i]),
        decreases to - at,
    {
        assert(part[at - from] == text@[at as int]);
        if !alpha(text[at]) {
            return false;
        }
        at = at + 1;
    }
    from < to
}

/// Decides whether the characters from `from` up to `to` are one or more
/// computation characters.
pub fn computation_in(text: &Vec<char>, from: usize, to: usize) -> (yes: bool)
    requires
        from <= to <= text.len(),
    ensures
        yes == is_computation(text@.subrange(from as int, to as int)),
{
    let ghost part = text@.subrange(from as int, to as int);
    let mut at: usize = from;
    while at < to
        invariant
            from <= at <= to <= text.len(),
            part == text@.subrange(from as int, to as int),
            forall|i: int| 0 <= i < at - from ==> is_comp_char(#[trigger] part[i]),
        decreases to - at,
    {
        assert(part[at - from] == text@[at as int]);
        if !comp_char(text[at]) {
            return false;
        }
        at = at + 1;
    }
    from < to
}

/// Reads the characters from `from` up to `to` as a literal address. Gives
/// its value, or `None` where they are no literal: no number, or one that
/// does not fit in 15 bits.
pub fn literal_in(text: &Vec<char>, from: usize, to: usize) -> (value: Option<u16>)
    requires
        from <= to <= text.len(),
    ensures
        match value {
            Some(address) => {
                &&& is_literal(text@.subrange(from as int, to as int))
                &&& address == decimal_value(text@.subrange(from as int, to as int))
            },
            None => !is_literal(text@.subrange(from as int, to as int)),
        },
{
    let ghost part = text@.subrange(from as int, to as int);
    if from == to {
        return None;
    }
    let mut value: u32 = 0;
    let mut at: usize = from;
    while at < to
        invariant
            from <= at <= to <= text.len(),
            part == text@.subrange(from as int, to as int),
            forall|i: int| 0 <= i < at - from ==> is_digit(#[trigger] part[i]),
            value == decimal_value(part.take(at - from)),
            value <= MAX_ADDRESS,
        decreases to - at,
    {
        let c = text[at];
        assert(part[at - from] == c);
        if !digit(c) {
            return None;
        }
        let ghost before = part.take(at - from);
        let ghost after = part.take(at - from + 1);
        assert(after.drop_last() == before);
        value = value * 10 + (c as u32 - '0' as u32);
        if value > MAX_ADDRESS as u32 {
            proof {
                lemma_decimal_value_prefix(part, at - from + 1);
            }
            return None;
        }
        at = at + 1;
    }
    assert(part.take(to - from) == part);
    Some(value as u16)
}

/// Decides whether `text` is an A-command.
pub fn a_command(text: &Vec<char>) -> (yes: bool)
    ensures
        yes == is_a_command(text@),
{
    if text.len() == 0 || text[0] != '@' {
        return false;
    }
    literal_in(text, 1, text.len()).is_some() || symbol_in(text, 1, text.len())
}

/// Decides whether `text` is an L-command.
pub fn l_command(text: &Vec<char>) -> (yes: bool)
    ensures
        yes == is_l_command(text@),
{
    if text.len() < 2 || text[0] != '(' || text[text.len() - 1] != ')' {
        return false;
    }
    symbol_in(text, 1, text.len() - 1)
}

/// Decides whether `text` is a C-command.
pub fn c_command(text: &Vec<char>) -> (yes: bool)
    ensures
        yes == is_c_command(text@),
{
    let len = text.len();
    assert(forall|from: int|
        0 <= from <= len ==> text@.skip(from) == text@.subrange(from, len as int));
    match (find_char(text, '='), find_char(text, ';')) {
        (Some(equals), None) => letters_in(text, 0, equals) && computation_in(
            text,
            equals + 1,
            len,
        ),
        (None, Some(semicolon)) => computation_in(text, 0, semicolon) && letters_in(
            text,
            semicolon + 1,
            len,
        ),
        (Some(equals), Some(semicolon)) => equals < semicolon && letters_in(text, 0, equals)
            && computation_in(text, equals + 1, semicolon) && letters_in(
            text,
            semicolon + 1,
            len,
        ),
        (None, None) => false,
    }
}

} // verus!
