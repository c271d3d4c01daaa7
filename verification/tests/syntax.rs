use assembler::config::has_ending;
use assembler::parser::{Command, Parser};
use assembler::syntax::{
    a_command, alpha, c_command, comp_char, computation_in, digit, find_char, find_comment,
    find_text, l_command, letters_in, literal_in, symbol_char, symbol_in, whitespace,
};
use regex::{Regex, RegexSet};

/// All texts of up to `len` characters over `alphabet`.
fn texts_over(alphabet: &[char], len: usize) -> Vec<String> {
    let mut all = vec![String::new()];
    let mut last = vec![String::new()];
    for _ in 0..len {
        let mut next = Vec::new();
        for text in &last {
            for c in alphabet {
                let mut longer = text.clone();
                longer.push(*c);
                next.push(longer);
            }
        }
        all.extend(next.iter().cloned());
        last = next;
    }
    all
}

fn chars(text: &str) -> Vec<char> {
    text.chars().collect()
}

#[test]
fn white_space_is_what_the_standard_library_trims() {
    for code in 0..=0x10FFFFu32 {
        if let Some(c) = char::from_u32(code) {
            assert_eq!(whitespace(c), c.is_whitespace(), "U+{:04X}", code);
        }
    }
}

#[test]
fn character_classes_are_the_ascii_classes() {
    let is_alpha = Regex::new(r"^[[:alpha:]]$").unwrap();
    let is_digit = Regex::new(r"^[[:digit:]]$").unwrap();
    let is_symbol_char = Regex::new(r"^[[:word:].$:]$").unwrap();
    let is_comp_char = Regex::new(r"^[[:alpha:]01\-!+&|]$").unwrap();
    for code in 0..=0x10FFFFu32 {
        if let Some(c) = char::from_u32(code) {
            if c == '\n' {
                continue;
            }
            let text = c.to_string();
            assert_eq!(alpha(c), is_alpha.is_match(&text), "U+{:04X}", code);
            assert_eq!(digit(c), is_digit.is_match(&text), "U+{:04X}", code);
            assert_eq!(symbol_char(c), is_symbol_char.is_match(&text), "U+{:04X}", code);
            assert_eq!(comp_char(c), is_comp_char.is_match(&text), "U+{:04X}", code);
        }
    }
    assert!(!alpha('\n') && !digit('\n') && !symbol_char('\n') && !comp_char('\n'));
}

#[test]
fn c_commands_are_the_three_forms() {
    let forms = RegexSet::new(&[
        r"^[[:alpha:]]+=[[:alpha:]01\-!+&|]+$", // dest=comp
        r"^[[:alpha:]01\-!+&|]+;[[:alpha:]]+$", // comp;jump
        r"^[[:alpha:]]+=[[:alpha:]01\-!+&|]+;[[:alpha:]]+$", // dest=comp;jump
    ])
    .unwrap();
    let alphabet = ['D', 'm', '0', '2', '=', ';', '-', '|', '@', '(', ')', ' ', '_'];
    for text in texts_over(&alphabet, 5) {
        assert_eq!(c_command(&chars(&text)), forms.is_match(&text), "{:?}", text);
    }
}

#[test]
fn l_commands_are_symbols_in_brackets() {
    let form = Regex::new(r"^\([[:alpha:]_.$:][[:word:].$:]*\)$").unwrap();
    let alphabet = ['(', ')', 'L', 'x', '0', '9', '_', '.', '$', ':', '@', '=', ' ', '-'];
    for text in texts_over(&alphabet, 5) {
        assert_eq!(l_command(&chars(&text)), form.is_match(&text), "{:?}", text);
    }
}

#[test]
fn a_commands_are_literals_or_symbols() {
    let number = Regex::new(r"^@[0-9]+$").unwrap();
    let symbol = Regex::new(r"^@[[:alpha:]_.$:][[:word:].$:]*$").unwrap();
    let alphabet = ['@', 'x', 'R', '0', '3', '7', '9', '_', '.', '$', ':', '(', ';', ' '];
    for text in texts_over(&alphabet, 5) {
        let fits = number.is_match(&text) && text[1..].parse::<u32>().unwrap() <= 32767;
        assert_eq!(a_command(&chars(&text)), fits || symbol.is_match(&text), "{:?}", text);
    }
    for value in 0..=70000u32 {
        for text in [format!("@{}", value), format!("@0{}", value), format!("@000000{}", value)] {
            assert_eq!(a_command(&chars(&text)), value <= 32767, "{:?}", text);
        }
    }
}

#[test]
fn literals_are_read_as_decimal_numbers() {
    for value in 0..=70000u32 {
        let text = chars(&format!("{}", value));
        let padded = chars(&format!("x{:08}y", value));
        let expected = if value <= 32767 { Some(value as u16) } else { None };
        assert_eq!(literal_in(&text, 0, text.len()), expected);
        assert_eq!(literal_in(&padded, 1, 9), expected);
        assert_eq!(literal_in(&padded, 0, 9), None);
        assert_eq!(literal_in(&padded, 1, 10), None);
    }
    let none = chars("");
    assert_eq!(literal_in(&none, 0, 0), None);
    let long = chars("99999999999999999999999999999999999999999999");
    assert_eq!(literal_in(&long, 0, long.len()), None);
    let zeros = chars("0000000000000000000000000000000000000000032767");
    assert_eq!(literal_in(&zeros, 0, zeros.len()), Some(32767));
    let arabic = chars("\u{661}\u{662}");
    assert_eq!(literal_in(&arabic, 0, 2), None);
}

#[test]
fn ranges_of_a_text_are_checked_on_their_own() {
    let text = chars("10ab+=R2.x$");
    assert!(letters_in(&text, 2, 4));
    assert!(!letters_in(&text, 1, 4));
    assert!(!letters_in(&text, 2, 5));
    assert!(!letters_in(&text, 3, 3));
    assert!(computation_in(&text, 0, 5));
    assert!(!computation_in(&text, 0, 6));
    assert!(!computation_in(&text, 4, 8));
    assert!(!computation_in(&text, 5, 5));
    assert!(symbol_in(&text, 6, 11));
    assert!(symbol_in(&text, 2, 4));
    assert!(!symbol_in(&text, 1, 4));
    assert!(!symbol_in(&text, 7, 11));
    assert!(!symbol_in(&text, 2, 6));
    assert!(!symbol_in(&text, 6, 6));
    assert_eq!(find_char(&text, '='), Some(5));
    assert_eq!(find_char(&text, '0'), Some(1));
    assert_eq!(find_char(&text, '2'), Some(7));
    assert_eq!(find_char(&text, ';'), None);
}

#[test]
fn the_command_is_the_line_without_comment_and_white_space() {
    let alphabet = ['/', ' ', '\t', '\n', '\r', 'D', '=', '\u{a0}', '\u{200b}', 'é'];
    for line in texts_over(&alphabet, 5) {
        let line_chars = chars(&line);
        let comment = find_comment(&line_chars);
        let expected_comment = match line.find("//") {
            Some(offset) => line[..offset].chars().count(),
            None => line_chars.len(),
        };
        assert_eq!(comment, expected_comment, "{:?}", line);
        let (start, end) = find_text(&line_chars, comment);
        let text: String = line_chars[start..end].iter().collect();
        let expected = line.split("//").next().unwrap().trim();
        assert_eq!(text, expected, "{:?}", line);
    }
}

#[test]
fn the_parts_of_a_c_command_are_what_stands_around_the_signs() {
    let forms = RegexSet::new(&[
        r"^[[:alpha:]]+=[[:alpha:]01\-!+&|]+$",
        r"^[[:alpha:]01\-!+&|]+;[[:alpha:]]+$",
        r"^[[:alpha:]]+=[[:alpha:]01\-!+&|]+;[[:alpha:]]+$",
    ])
    .unwrap();
    let dest = Regex::new(r"(^(?P<dest>[[:alpha:]]+)=)").unwrap();
    let comp = Regex::new(
        r"(?x)
        (^(?P<comp_0>[[:alpha:]01\-!+&|]+);) |
        (=(?P<comp_1>[[:alpha:]01\-!+&|]+);?)",
    )
    .unwrap();
    let jump = Regex::new(r"(;(?P<jump>[[:alpha:]]+)$)").unwrap();
    let alphabet = ['D', 'M', 'J', '1', '=', ';', '+', '!'];
    let mut seen = 0;
    for text in texts_over(&alphabet, 6) {
        if !forms.is_match(&text) {
            continue;
        }
        seen += 1;
        let mut parser = Parser::new(vec![text.clone()]);
        parser.advance().unwrap();
        assert_eq!(
            parser.get_command().as_ref().unwrap(),
            &Command::CCommand(text.clone())
        );
        let expected_dest =
            dest.captures(&text).map(|found| String::from(found.name("dest").unwrap().as_str()));
        let expected_comp = comp.captures(&text).map(|found| {
            String::from(found.name("comp_0").or_else(|| found.name("comp_1")).unwrap().as_str())
        });
        let expected_jump =
            jump.captures(&text).map(|found| String::from(found.name("jump").unwrap().as_str()));
        assert_eq!(parser.dest().unwrap(), expected_dest, "{:?}", text);
        assert_eq!(parser.comp().unwrap(), expected_comp, "{:?}", text);
        assert_eq!(parser.jump().unwrap(), expected_jump, "{:?}", text);
    }
    assert!(seen > 1000);
}

#[test]
fn the_symbol_is_what_stands_behind_the_sign_or_between_the_brackets() {
    let address = Regex::new(r"^@(?P<symbol>[[:word:].$:]+)$").unwrap();
    let label = Regex::new(r"^[\(](?P<symbol>[[:word:].$:]+)[\)]$").unwrap();
    let alphabet = ['@', '(', ')', 'a', 'Z', '1', '_', '.', '$', ':'];
    let mut seen = 0;
    for text in texts_over(&alphabet, 5) {
        let text_chars = chars(&text);
        let pattern = if a_command(&text_chars) {
            &address
        } else if l_command(&text_chars) {
            &label
        } else {
            continue;
        };
        seen += 1;
        let mut parser = Parser::new(vec![text.clone()]);
        parser.advance().unwrap();
        assert_eq!(
            parser.symbol().unwrap(),
            String::from(pattern.replace(&text, "$symbol")),
            "{:?}",
            text
        );
    }
    assert!(seen > 1000);
}

#[test]
fn file_endings_are_found_at_the_end() {
    let source = Regex::new(r"\.asm$").unwrap();
    let binary = Regex::new(r"\.hack$").unwrap();
    let alphabet = ['.', 'a', 's', 'm', 'h', 'c', 'k', '/'];
    for text in texts_over(&alphabet, 6) {
        assert_eq!(has_ending(&text, ".asm"), source.is_match(&text), "{:?}", text);
        assert_eq!(has_ending(&text, ".hack"), binary.is_match(&text), "{:?}", text);
    }
}
