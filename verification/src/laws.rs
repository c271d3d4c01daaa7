//! Laws of the two passes: what holds of the translation of every program.

use vstd::prelude::*;
use crate::code_translator::{
    comp_field, dest_field, jump_field, lemma_compute_word_round_trip, COMPUTE_PREFIX, COMP_MASK,
    DEST_MASK, JUMP_MASK,
};
use crate::error::ErrorKind;
use crate::parser::{parse_line, texts, Instruction};
use crate::runner::{
    assemble, render, scan_line, scan_lines, translate_compute, translate_line_of,
    translate_lines, Translation,
};
use crate::symbols::{
    lemma_initial_wf, lemma_insert_label_keeps_entries, lemma_insert_variable_keeps_entries,
    Symbols, FIRST_VARIABLE_ADDRESS, LAST_VARIABLE_ADDRESS, MAX_ADDRESS, MAX_INSTRUCTIONS,
};
use crate::syntax::{
    comp_of, decimal_value, dest_of, is_literal, is_symbol, jump_of, label_of, operand_of,
};

verus! {

/// Whether a line holds an instruction, which takes a place in the
/// instruction memory: an A- or a C-command.
pub open spec fn is_instruction_line(line: Seq<char>) -> bool {
    parse_line(line) matches Ok(Some(command)) && command.takes_address()
}

/// The number of instructions among `lines`.
pub open spec fn instruction_count(lines: Seq<Seq<char>>) -> nat
    decreases lines.len(),
{
    if lines.len() == 0 {
        0
    } else {
        let first: nat = if is_instruction_line(lines[0]) {
            1
        } else {
            0
        };
        first + instruction_count(lines.drop_first())
    }
}

/// The instructions among the first lines of a program are counted as those
/// of the first line and those of the lines behind it.
proof fn lemma_count_take(lines: Seq<Seq<char>>, len: int)
    requires
        0 < len <= lines.len(),
    ensures
        instruction_count(lines.take(len)) == instruction_count(seq![lines[0]])
            + instruction_count(lines.drop_first().take(len - 1)),
        instruction_count(seq![lines[0]]) == if is_instruction_line(lines[0]) {
            1nat
        } else {
            0nat
        },
        instruction_count(lines.take(0)) == 0,
{
    assert(lines.take(len).drop_first() == lines.drop_first().take(len - 1));
    assert(instruction_count(seq![lines[0]].drop_first()) == 0);
}

/// A step of the first pass keeps the symbol table well formed.
pub proof fn lemma_scan_line_keeps_wf(symbols: Symbols, line: Seq<char>)
    requires
        symbols.wf(),
        scan_line(symbols, line) is Ok,
    ensures
        scan_line(symbols, line)->Ok_0.wf(),
{
    match parse_line(line) {
        Ok(Some(Instruction::Label(text))) => {
            lemma_insert_label_keeps_entries(symbols, label_of(text));
        },
        _ => {},
    }
}

/// The first pass keeps the symbol table well formed.
pub proof fn lemma_scan_keeps_wf(symbols: Symbols, lines: Seq<Seq<char>>)
    requires
        symbols.wf(),
    ensures
        scan_lines(symbols, lines).symbols.wf(),
    decreases lines.len(),
{
    if lines.len() > 0 && scan_line(symbols, lines[0]) is Ok {
        lemma_scan_line_keeps_wf(symbols, lines[0]);
        lemma_scan_keeps_wf(scan_line(symbols, lines[0])->Ok_0, lines.drop_first());
    }
}

/// A first pass that comes to the end has read every line and counted the
/// instructions: the ROM address has moved on by their number. It has left
/// the RAM address alone and has kept every entry of the table.
pub proof fn lemma_scan_counts_instructions(symbols: Symbols, lines: Seq<Seq<char>>)
    requires
        scan_lines(symbols, lines).error is None,
    ensures
        scan_lines(symbols, lines).read == lines.len(),
        scan_lines(symbols, lines).symbols.rom_address == symbols.rom_address + instruction_count(
            lines,
        ),
        scan_lines(symbols, lines).symbols.ram_address == symbols.ram_address,
        symbols.entries.submap_of(scan_lines(symbols, lines).symbols.entries),
    decreases lines.len(),
{
    if lines.len() > 0 {
        let next = scan_line(symbols, lines[0])->Ok_0;
        let last = scan_lines(symbols, lines).symbols;
        lemma_scan_counts_instructions(next, lines.drop_first());
        assert forall|name: Seq<char>| #[trigger]
            symbols.entries.contains_key(name) implies last.entries.contains_key(name)
            && last.entries[name] == symbols.entries[name] by {
            assert(next.entries.contains_key(name));
        }
    }
}

/// Labels stand for instruction addresses: after a first pass that comes to
/// the end, the symbol of each L-command is in the table, with the address
/// of the instruction that follows it, which is the ROM address at the start
/// and the number of instructions in front of the label.
pub proof fn lemma_scan_enters_labels(symbols: Symbols, lines: Seq<Seq<char>>, at: int)
    requires
        scan_lines(symbols, lines).error is None,
        0 <= at < lines.len(),
        parse_line(lines[at]) matches Ok(Some(Instruction::Label(_))),
    ensures
        ({
            let label = label_of(parse_line(lines[at])->Ok_0->Some_0->Label_0);
            let entries = scan_lines(symbols, lines).symbols.entries;
            &&& entries.contains_key(label)
            &&& entries[label] == symbols.rom_address + instruction_count(lines.take(at))
        }),
    decreases lines.len(),
{
    let next = scan_line(symbols, lines[0])->Ok_0;
    let last = scan_lines(symbols, lines).symbols;
    let label = label_of(parse_line(lines[at])->Ok_0->Some_0->Label_0);
    lemma_scan_counts_instructions(next, lines.drop_first());
    if at == 0 {
        assert(next.entries.contains_key(label));
        assert(last.entries.contains_key(label));
    } else {
        lemma_count_take(lines, at);
        lemma_scan_enters_labels(next, lines.drop_first(), at - 1);
        assert(last.entries[label] == next.rom_address + instruction_count(
            lines.drop_first().take(at - 1),
        ));
    }
}

/// The symbol that a line declares as a label, if the line is an L-command.
pub open spec fn label_in(line: Seq<char>) -> Option<Seq<char>> {
    match parse_line(line) {
        Ok(Some(Instruction::Label(text))) => Some(label_of(text)),
        _ => None,
    }
}

/// Some line among `lines` declares `name` as a label.
pub open spec fn declares(lines: Seq<Seq<char>>, name: Seq<char>) -> bool {
    exists|at: int| 0 <= at < lines.len() && label_in(#[trigger] lines[at]) == Some(name)
}

/// When the first pass comes to the end. It does so where every line holds a
/// command or none, no label is in the table at the start, no two lines
/// declare the same label, the instructions can be counted in sixteen bits,
/// and every label stands for an address of 15 bits.
pub proof fn lemma_scan_succeeds(symbols: Symbols, lines: Seq<Seq<char>>)
    requires
        forall|at: int| 0 <= at < lines.len() ==> parse_line(#[trigger] lines[at]) is Ok,
        forall|at: int|
            0 <= at < lines.len() && label_in(#[trigger] lines[at]) is Some
                ==> !symbols.entries.contains_key(label_in(lines[at])->0),
        forall|first: int, second: int|
            0 <= first < second < lines.len() && label_in(#[trigger] lines[first]) is Some
                ==> label_in(lines[first]) != label_in(#[trigger] lines[second]),
        symbols.rom_address + instruction_count(lines) <= MAX_INSTRUCTIONS,
        forall|at: int|
            0 <= at < lines.len() && label_in(#[trigger] lines[at]) is Some
                ==> symbols.rom_address + instruction_count(lines.take(at)) <= MAX_ADDRESS,
    ensures
        scan_lines(symbols, lines).error is None,
    decreases lines.len(),
{
    if lines.len() > 0 {
        let rest = lines.drop_first();
        let next = scan_line(symbols, lines[0])->Ok_0;
        assert forall|at: int|
            0 <= at < rest.len() && label_in(#[trigger] rest[at]) is Some implies {
            &&& !next.entries.contains_key(label_in(rest[at])->0)
            &&& next.rom_address + instruction_count(rest.take(at)) <= MAX_ADDRESS
        } by {
            lemma_count_take(lines, at + 1);
        }
        lemma_scan_succeeds(next, rest);
    }
}

/// The first pass adds the labels and nothing else: after a first pass that
/// comes to the end, the table holds the names it had at the start and the
/// symbols that the lines declare.
pub proof fn lemma_scan_adds_only_labels(symbols: Symbols, lines: Seq<Seq<char>>)
    requires
        scan_lines(symbols, lines).error is None,
    ensures
        forall|name: Seq<char>| #[trigger]
            scan_lines(symbols, lines).symbols.entries.contains_key(name)
                <==> symbols.entries.contains_key(name) || declares(lines, name),
    decreases lines.len(),
{
    let last = scan_lines(symbols, lines).symbols;
    if lines.len() > 0 {
        let rest = lines.drop_first();
        let next = scan_line(symbols, lines[0])->Ok_0;
        lemma_scan_adds_only_labels(next, rest);
        assert forall|name: Seq<char>| #[trigger]
            last.entries.contains_key(name) <==> symbols.entries.contains_key(name) || declares(
                lines,
                name,
            ) by {
            if declares(lines, name) {
                let at = choose|at: int|
                    0 <= at < lines.len() && label_in(#[trigger] lines[at]) == Some(name);
                if at > 0 {
                    assert(label_in(rest[at - 1]) == Some(name));
                }
            }
        }
    }
}

/// When the second pass comes to the end. It does so where every line holds a
/// command or none, every mnemonic of a C-command is in its table, and the
/// RAM addresses suffice for the variables of the lines.
pub proof fn lemma_translation_succeeds(symbols: Symbols, lines: Seq<Seq<char>>)
    requires
        symbols.wf(),
        forall|at: int| 0 <= at < lines.len() ==> parse_line(#[trigger] lines[at]) is Ok,
        forall|at: int|
            0 <= at < lines.len() ==> (parse_line(#[trigger] lines[at]) matches Ok(
                Some(Instruction::Compute(text)),
            ) ==> translate_compute(text) is Ok),
        symbols.ram_address + variables(symbols.entries.dom(), lines).len()
            <= LAST_VARIABLE_ADDRESS,
    ensures
        translate_lines(symbols, lines).error is None,
    decreases lines.len(),
{
    if lines.len() > 0 {
        let rest = lines.drop_first();
        let next = translate_line_of(symbols, lines[0])->Ok_0.0;
        lemma_translate_line_keeps_entries(symbols, lines[0]);
        lemma_translation_succeeds(next, rest);
    }
}

/// When a program is assembled without failure. It is where every line holds
/// a command or none, no line declares a predefined name as a label, no two
/// lines declare the same label, the instructions can be counted in sixteen
/// bits, every label stands for an address of 15 bits, every mnemonic of a
/// C-command is in its table, and the RAM addresses from 16 upwards suffice
/// for the variables.
pub proof fn lemma_assembly_succeeds(lines: Seq<Seq<char>>)
    requires
        forall|at: int| 0 <= at < lines.len() ==> parse_line(#[trigger] lines[at]) is Ok,
        forall|at: int|
            0 <= at < lines.len() && label_in(#[trigger] lines[at]) is Some
                ==> !Symbols::initial().entries.contains_key(label_in(lines[at])->0),
        forall|first: int, second: int|
            0 <= first < second < lines.len() && label_in(#[trigger] lines[first]) is Some
                ==> label_in(lines[first]) != label_in(#[trigger] lines[second]),
        instruction_count(lines) <= MAX_INSTRUCTIONS,
        forall|at: int|
            0 <= at < lines.len() && label_in(#[trigger] lines[at]) is Some
                ==> instruction_count(lines.take(at)) <= MAX_ADDRESS,
        forall|at: int|
            0 <= at < lines.len() ==> (parse_line(#[trigger] lines[at]) matches Ok(
                Some(Instruction::Compute(text)),
            ) ==> translate_compute(text) is Ok),
        FIRST_VARIABLE_ADDRESS + variables(
            scan_lines(Symbols::initial(), lines).symbols.entries.dom(),
            lines,
        ).len() <= LAST_VARIABLE_ADDRESS,
    ensures
        assemble(lines).error is None,
        assemble(lines).failed_at is None,
        assemble(lines).words.len() == instruction_count(lines),
{
    lemma_initial_wf();
    lemma_scan_succeeds(Symbols::initial(), lines);
    lemma_scan_keeps_wf(Symbols::initial(), lines);
    lemma_scan_counts_instructions(Symbols::initial(), lines);
    let known = scan_lines(Symbols::initial(), lines).symbols;
    lemma_translation_succeeds(known, lines);
    lemma_translation_keeps_entries(known, lines);
    assert(lines.take(lines.len() as int) == lines);
}

/// The number of lines that a second pass has translated without failure.
pub open spec fn translated(translation: Translation) -> nat {
    if translation.error is Some {
        (translation.read - 1) as nat
    } else {
        translation.read
    }
}

/// A symbol is no literal, and a literal is no symbol.
pub proof fn lemma_symbol_is_no_literal(text: Seq<char>)
    ensures
        !(is_symbol(text) && is_literal(text)),
{
}

/// A step of the second pass keeps the symbol table well formed and keeps its
/// entries; all it may do to the table is to add one variable at the next
/// RAM address.
pub proof fn lemma_translate_line_keeps_entries(symbols: Symbols, line: Seq<char>)
    requires
        symbols.wf(),
        translate_line_of(symbols, line) is Ok,
    ensures
        ({
            let next = translate_line_of(symbols, line)->Ok_0.0;
            &&& next.wf()
            &&& next.rom_address == symbols.rom_address
            &&& symbols.entries.submap_of(next.entries)
            &&& symbols.ram_address <= next.ram_address <= symbols.ram_address + 1
        }),
{
    let next = translate_line_of(symbols, line)->Ok_0.0;
    if next != symbols {
        lemma_insert_variable_keeps_entries(
            symbols,
            operand_of(parse_line(line)->Ok_0->Some_0->Address_0),
        );
    }
}

/// A second pass keeps the symbol table well formed, leaves the ROM address
/// alone and keeps every entry of the table. It has read every line if it
/// came to the end, and it has written one word for each instruction among
/// the lines that it translated.
pub proof fn lemma_translation_keeps_entries(symbols: Symbols, lines: Seq<Seq<char>>)
    requires
        symbols.wf(),
    ensures
        ({
            let translation = translate_lines(symbols, lines);
            &&& translation.symbols.wf()
            &&& translation.symbols.rom_address == symbols.rom_address
            &&& symbols.entries.submap_of(translation.symbols.entries)
            &&& symbols.ram_address <= translation.symbols.ram_address
            &&& translation.read <= lines.len()
            &&& translation.error is Some ==> translation.read >= 1
            &&& translation.error is None ==> translation.read == lines.len()
            &&& translation.words.len() == instruction_count(
                lines.take(translated(translation) as int),
            )
        }),
    decreases lines.len(),
{
    let translation = translate_lines(symbols, lines);
    if lines.len() > 0 {
        match translate_line_of(symbols, lines[0]) {
            Ok((next, word)) => {
                lemma_translate_line_keeps_entries(symbols, lines[0]);
                lemma_translation_keeps_entries(next, lines.drop_first());
                let last = translation.symbols;
                assert forall|name: Seq<char>| #[trigger]
                    symbols.entries.contains_key(name) implies last.entries.contains_key(name)
                    && last.entries[name] == symbols.entries[name] by {
                    assert(next.entries.contains_key(name));
                }
                lemma_count_take(lines, translated(translation) as int);
            },
            Err(_) => {},
        }
    }
}

/// The word of each line: after a second pass that comes to the end, the
/// instruction of a line stands in the output behind those of the lines in
/// front of it. The word of an A-command with a literal is the value of the
/// literal. That of an A-command with a symbol is the address that the table
/// has for the symbol at the end. That of a C-command is made of the bits of
/// its mnemonics.
pub proof fn lemma_translation_words(symbols: Symbols, lines: Seq<Seq<char>>, at: int)
    requires
        symbols.wf(),
        translate_lines(symbols, lines).error is None,
        0 <= at < lines.len(),
    ensures
        ({
            let translation = translate_lines(symbols, lines);
            let index = instruction_count(lines.take(at)) as int;
            match parse_line(lines[at]) {
                Ok(Some(Instruction::Address(text))) => {
                    &&& index < translation.words.len()
                    &&& is_literal(operand_of(text)) ==> translation.words[index] == decimal_value(
                        operand_of(text),
                    )
                    &&& !is_literal(operand_of(text)) ==> {
                        &&& translation.symbols.entries.contains_key(operand_of(text))
                        &&& translation.words[index] == translation.symbols.entries[operand_of(
                            text,
                        )]
                    }
                },
                Ok(Some(Instruction::Compute(text))) => {
                    &&& index < translation.words.len()
                    &&& translate_compute(text) == Ok::<u16, ErrorKind>(translation.words[index])
                },
                _ => true,
            }
        }),
    decreases lines.len(),
{
    let next = translate_line_of(symbols, lines[0])->Ok_0.0;
    lemma_translate_line_keeps_entries(symbols, lines[0]);
    lemma_translation_keeps_entries(next, lines.drop_first());
    if at == 0 {
        match parse_line(lines[0]) {
            Ok(Some(Instruction::Address(text))) => {
                if !is_literal(operand_of(text)) {
                    assert(next.entries.contains_key(operand_of(text)));
                }
            },
            _ => {},
        }
    } else {
        lemma_count_take(lines, at);
        lemma_translation_words(next, lines.drop_first(), at - 1);
    }
}

/// What a second pass has done up to the line that failed is the second pass
/// over the lines in front of that line, which comes to the end.
pub proof fn lemma_translation_prefix(symbols: Symbols, lines: Seq<Seq<char>>)
    ensures
        ({
            let translation = translate_lines(symbols, lines);
            let prefix = translate_lines(symbols, lines.take(translated(translation) as int));
            &&& translated(translation) <= lines.len()
            &&& prefix.error is None
            &&& prefix.symbols == translation.symbols
            &&& prefix.words == translation.words
        }),
    decreases lines.len(),
{
    let translation = translate_lines(symbols, lines);
    if lines.len() > 0 {
        match translate_line_of(symbols, lines[0]) {
            Ok((next, word)) => {
                lemma_translation_prefix(next, lines.drop_first());
                let len = translated(translation) as int;
                assert(lines.take(len).drop_first() == lines.drop_first().take(len - 1));
            },
            Err(_) => {},
        }
    }
}

/// The variable that a line brings in: the symbol of an A-command, unless it
/// is among the names `known` by then.
pub open spec fn new_variable(known: Set<Seq<char>>, line: Seq<char>) -> Option<Seq<char>> {
    match parse_line(line) {
        Ok(Some(Instruction::Address(text))) => if !is_literal(operand_of(text))
            && !known.contains(operand_of(text)) {
            Some(operand_of(text))
        } else {
            None
        },
        _ => None,
    }
}

/// The variables of a program, in the order in which they are first met: the
/// symbols of its A-commands, each once, without the names `known` at the
/// start.
pub open spec fn variables(known: Set<Seq<char>>, lines: Seq<Seq<char>>) -> Seq<Seq<char>>
    decreases lines.len(),
{
    if lines.len() == 0 {
        Seq::empty()
    } else {
        match new_variable(known, lines[0]) {
            Some(name) => seq![name] + variables(known.insert(name), lines.drop_first()),
            None => variables(known, lines.drop_first()),
        }
    }
}

/// No variable of a program is among the names known at the start, and none
/// is listed twice.
pub proof fn lemma_variables_are_new(known: Set<Seq<char>>, lines: Seq<Seq<char>>)
    ensures
        forall|k: int|
            0 <= k < variables(known, lines).len() ==> !known.contains(
                #[trigger] variables(known, lines)[k],
            ),
        variables(known, lines).no_duplicates(),
    decreases lines.len(),
{
    if lines.len() > 0 {
        match new_variable(known, lines[0]) {
            Some(name) => {
                lemma_variables_are_new(known.insert(name), lines.drop_first());
            },
            None => {
                lemma_variables_are_new(known, lines.drop_first());
            },
        }
    }
}

/// Variables get their addresses in the order in which they are first met:
/// after a second pass that comes to the end, the table holds the names it
/// had at the start and the variables of the lines, the first of them at the
/// RAM address of the start and each further one at the next address. The
/// RAM address has moved on by the number of variables.
pub proof fn lemma_translation_allocates_in_order(symbols: Symbols, lines: Seq<Seq<char>>)
    requires
        symbols.wf(),
        translate_lines(symbols, lines).error is None,
    ensures
        ({
            let last = translate_lines(symbols, lines).symbols;
            let names = variables(symbols.entries.dom(), lines);
            &&& last.ram_address == symbols.ram_address + names.len()
            &&& forall|k: int|
                0 <= k < names.len() ==> last.entries.contains_key(#[trigger] names[k])
                    && last.entries[names[k]] == symbols.ram_address + k
            &&& forall|name: Seq<char>| #[trigger]
                last.entries.contains_key(name) <==> symbols.entries.contains_key(name)
                    || names.contains(name)
        }),
    decreases lines.len(),
{
    let last = translate_lines(symbols, lines).symbols;
    let names = variables(symbols.entries.dom(), lines);
    if lines.len() > 0 {
        let (next, word) = translate_line_of(symbols, lines[0])->Ok_0;
        lemma_translate_line_keeps_entries(symbols, lines[0]);
        lemma_translation_keeps_entries(next, lines.drop_first());
        lemma_translation_allocates_in_order(next, lines.drop_first());
        match new_variable(symbols.entries.dom(), lines[0]) {
            Some(name) => {
                let rest = variables(next.entries.dom(), lines.drop_first());
                assert forall|k: int| 0 <= k < names.len() implies last.entries.contains_key(
                    #[trigger] names[k],
                ) && last.entries[names[k]] == symbols.ram_address + k by {
                    if k == 0 {
                        assert(last.entries.contains_key(name));
                    }
                }
                assert forall|other: Seq<char>| #[trigger]
                    last.entries.contains_key(other) <==> symbols.entries.contains_key(other)
                        || names.contains(other) by {
                    if rest.contains(other) {
                        let k = choose|k: int| 0 <= k < rest.len() && rest[k] == other;
                        assert(names[k + 1] == other);
                    }
                    if other == name {
                        assert(names[0] == other);
                    }
                }
            },
            None => {},
        }
    }
}

/// Label resolution comes before variable resolution. Take a program whose
/// first pass comes to the end, an L-command in it, and an A-command with the
/// symbol of that label, in front of the label or behind it, that the second
/// pass translates. The word of the A-command is then the instruction address
/// of the label, the number of instructions in front of it, and never the
/// address of a new variable.
pub proof fn lemma_label_wins(lines: Seq<Seq<char>>, label: int, reference: int)
    requires
        scan_lines(Symbols::initial(), lines).error is None,
        0 <= label < lines.len(),
        parse_line(lines[label]) matches Ok(Some(Instruction::Label(_))),
        0 <= reference < translated(
            translate_lines(scan_lines(Symbols::initial(), lines).symbols, lines),
        ),
        parse_line(lines[reference]) matches Ok(Some(Instruction::Address(_))),
        operand_of(parse_line(lines[reference])->Ok_0->Some_0->Address_0) == label_of(
            parse_line(lines[label])->Ok_0->Some_0->Label_0,
        ),
    ensures
        instruction_count(lines.take(reference)) < assemble(lines).words.len(),
        assemble(lines).words[instruction_count(lines.take(reference)) as int]
            == instruction_count(lines.take(label)),
{
    let name = label_of(parse_line(lines[label])->Ok_0->Some_0->Label_0);
    let known = scan_lines(Symbols::initial(), lines).symbols;
    let translation = translate_lines(known, lines);
    let len = translated(translation) as int;
    let part = lines.take(len);
    lemma_initial_wf();
    lemma_scan_keeps_wf(Symbols::initial(), lines);
    lemma_scan_enters_labels(Symbols::initial(), lines, label);
    lemma_symbol_is_no_literal(name);
    lemma_translation_prefix(known, lines);
    lemma_translation_keeps_entries(known, part);
    assert(part.take(reference) == lines.take(reference));
    lemma_translation_words(known, part, reference);
}

/// Variables get their addresses in the order in which they are first met,
/// from 16 upwards and one by one. Take a program whose first pass comes to
/// the end, and the variables of the lines that the second pass translates:
/// the symbols of their A-commands, each once, that are neither predefined
/// nor labels. They are all different, the first of them has the address 16
/// and each further one the next address, and the next free address lies
/// behind the last of them.
pub proof fn lemma_variables_in_order(lines: Seq<Seq<char>>)
    requires
        scan_lines(Symbols::initial(), lines).error is None,
    ensures
        ({
            let known = scan_lines(Symbols::initial(), lines).symbols;
            let translation = translate_lines(known, lines);
            let names = variables(
                known.entries.dom(),
                lines.take(translated(translation) as int),
            );
            &&& names.no_duplicates()
            &&& translation.symbols.ram_address == FIRST_VARIABLE_ADDRESS + names.len()
            &&& forall|k: int|
                0 <= k < names.len() ==> {
                    &&& !known.entries.contains_key(#[trigger] names[k])
                    &&& translation.symbols.entries.contains_key(names[k])
                    &&& translation.symbols.entries[names[k]] == FIRST_VARIABLE_ADDRESS + k
                }
        }),
{
    let known = scan_lines(Symbols::initial(), lines).symbols;
    let translation = translate_lines(known, lines);
    let part = lines.take(translated(translation) as int);
    lemma_initial_wf();
    lemma_scan_keeps_wf(Symbols::initial(), lines);
    lemma_scan_counts_instructions(Symbols::initial(), lines);
    lemma_translation_prefix(known, lines);
    lemma_translation_allocates_in_order(known, part);
    lemma_variables_are_new(known.entries.dom(), part);
}

/// The word of an A-command with a symbol is the address of the symbol. Take
/// a program whose first pass comes to the end and an A-command with a symbol
/// that the second pass translates: its word is the address that the symbol
/// table has for the symbol when the second pass ends, whether the symbol is
/// predefined, a label or a variable.
pub proof fn lemma_symbol_word(lines: Seq<Seq<char>>, at: int)
    requires
        scan_lines(Symbols::initial(), lines).error is None,
        0 <= at < translated(
            translate_lines(scan_lines(Symbols::initial(), lines).symbols, lines),
        ),
        parse_line(lines[at]) matches Ok(Some(Instruction::Address(_))),
        !is_literal(operand_of(parse_line(lines[at])->Ok_0->Some_0->Address_0)),
    ensures
        ({
            let name = operand_of(parse_line(lines[at])->Ok_0->Some_0->Address_0);
            let last = translate_lines(
                scan_lines(Symbols::initial(), lines).symbols,
                lines,
            ).symbols;
            let index = instruction_count(lines.take(at)) as int;
            &&& index < assemble(lines).words.len()
            &&& last.entries.contains_key(name)
            &&& assemble(lines).words[index] == last.entries[name]
        }),
{
    let known = scan_lines(Symbols::initial(), lines).symbols;
    let translation = translate_lines(known, lines);
    let part = lines.take(translated(translation) as int);
    lemma_initial_wf();
    lemma_scan_keeps_wf(Symbols::initial(), lines);
    lemma_translation_prefix(known, lines);
    assert(part.take(at) == lines.take(at));
    lemma_translation_words(known, part, at);
}

/// A word tells what it is. Take a program whose first pass comes to the end
/// and a line that the second pass translates: the word of an A-command fits
/// in 15 bits, so that its highest bit is clear, and the word of a C-command
/// begins with the prefix `111`.
pub proof fn lemma_word_kinds(lines: Seq<Seq<char>>, at: int)
    requires
        scan_lines(Symbols::initial(), lines).error is None,
        0 <= at < translated(
            translate_lines(scan_lines(Symbols::initial(), lines).symbols, lines),
        ),
    ensures
        ({
            let index = instruction_count(lines.take(at)) as int;
            match parse_line(lines[at]) {
                Ok(Some(Instruction::Address(_))) => {
                    &&& index < assemble(lines).words.len()
                    &&& assemble(lines).words[index] <= MAX_ADDRESS
                },
                Ok(Some(Instruction::Compute(_))) => {
                    &&& index < assemble(lines).words.len()
                    &&& assemble(lines).words[index] & COMPUTE_PREFIX == COMPUTE_PREFIX
                },
                _ => true,
            }
        }),
{
    let known = scan_lines(Symbols::initial(), lines).symbols;
    let translation = translate_lines(known, lines);
    let part = lines.take(translated(translation) as int);
    lemma_initial_wf();
    lemma_scan_keeps_wf(Symbols::initial(), lines);
    lemma_translation_prefix(known, lines);
    lemma_translation_keeps_entries(known, part);
    assert(part.take(at) == lines.take(at));
    lemma_translation_words(known, part, at);
    match parse_line(lines[at]) {
        Ok(Some(Instruction::Compute(text))) => {
            lemma_compute_round_trip(text);
        },
        _ => {},
    }
}

/// The mnemonic of an optional field of a C-command: `null` where the field
/// is left out.
pub open spec fn written_or_null(mnemonic: Option<Seq<char>>) -> Seq<char> {
    match mnemonic {
        Some(mnemonic) => mnemonic,
        None => "null"@,
    }
}

/// Encoding a C-command and decoding its word against the same tables gives
/// the mnemonics of the command back. The word begins with the prefix `111`;
/// a mnemonic has the bit pattern found in a field of the word exactly if it
/// is the mnemonic that the command has for that field, where `null` stands
/// for a destination or a jump that is left out.
pub proof fn lemma_compute_round_trip(text: Seq<char>)
    requires
        translate_compute(text) is Ok,
    ensures
        ({
            let word = translate_compute(text)->Ok_0;
            &&& word & COMPUTE_PREFIX == COMPUTE_PREFIX
            &&& forall|mnemonic: Seq<char>| #[trigger]
                dest_field(mnemonic) == Some(word & DEST_MASK) <==> mnemonic == written_or_null(
                    dest_of(text),
                )
            &&& forall|mnemonic: Seq<char>| #[trigger]
                comp_field(mnemonic) == Some(word & COMP_MASK) <==> mnemonic == comp_of(text)
            &&& forall|mnemonic: Seq<char>| #[trigger]
                jump_field(mnemonic) == Some(word & JUMP_MASK) <==> mnemonic == written_or_null(
                    jump_of(text),
                )
        }),
{
    lemma_compute_word_round_trip(
        written_or_null(dest_of(text)),
        comp_of(text),
        written_or_null(jump_of(text)),
    );
}

/// Translation has no hidden state: what comes out is decided by the text of
/// the program alone. Two programs with the same text give the same words,
/// the same output byte for byte, and the same failure.
pub proof fn lemma_translation_repeats(first: Seq<String>, second: Seq<String>)
    requires
        texts(first) == texts(second),
    ensures
        assemble(texts(first)) == assemble(texts(second)),
        render(assemble(texts(first)).words) == render(assemble(texts(second)).words),
{
}

} // verus!
