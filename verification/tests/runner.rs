use assembler::parser::Parser;
use assembler::runner::{
    first_pass, process_l_cmd, run, second_pass, translate_a_cmd, translate_c_cmd,
    translate_line, write_word,
};

fn temp_parser(text: &str) -> Parser {
    let lines: Vec<String> = text.split_inclusive('\n').map(String::from).collect();

    let parser = Parser::new(lines);

    parser
}

#[test]
fn try_first_pass() {
    let mut parser = temp_parser(
        "\
            @VAR_1          // Example A-command with variable symbol.\n\
            @12             // Example A-command without symbol.\n\
            @LOOP_1         // Example A-command with label symbol.\n\
            AMD=D|A         // Example C-command dest=comp\n\
            D&A;JNE         // Example C-command comp;jump\n\
            A=!D;null       // Example C-command dest=comp;jump\n\
            (LOOP_1)        // Example L-command.\
            ",
    );

    first_pass(&mut parser).unwrap();

    // L-pseudocommand with ROM address 6.
    assert_eq!(parser.get_symbol_address("LOOP_1").unwrap(), 6,);

    // Symbolic A-commands should not be added to the symbol table.
    assert_eq!(parser.get_symbol_address("VAR_1"), None,);

    // C-commands should not be added to the symbol table.
    assert_eq!(parser.get_symbol_address("D&A;JNE"), None,);
}

#[test]
fn try_second_pass() {
    let mut parser = temp_parser(
        "\
            @VAR_1          // Example A-command with variable symbol.\n\
            @12             // Example A-command without symbol.\n\
            @LOOP_1         // Example A-command with label symbol.\n\
            AMD=D|A         // Example C-command dest=comp\n\
            D&A;JNE         // Example C-command comp;jump\n\
            A=!D;null       // Example C-command dest=comp;jump\n\
            (LOOP_1)        // Example L-command.\
            ",
    );

    // Mimic action of 'first_pass' function.
    for _ in 0..6 {
        parser.inc_rom_address();
    }
    parser.insert_label("LOOP_1").unwrap();

    let mut output_buf: Vec<u8> = Vec::new();

    second_pass(&mut parser, &mut output_buf).unwrap();

    let output = String::from_utf8_lossy(&output_buf);

    println!("{:?}", output);

    assert_eq!(
        String::from(
            "\
                0000000000010000\n\
                0000000000001100\n\
                0000000000000110\n\
                1110010101111000\n\
                1110000000000101\n\
                1110001101100000\n\
                "
        ),
        output,
    );
}

fn assemble(text: &str) -> (Result<(), String>, String) {
    let lines: Vec<String> = text.split_inclusive('\n').map(String::from).collect();
    let mut output: Vec<u8> = Vec::new();
    let done = run(lines, &mut output).map_err(|error| error.to_string());
    (done, String::from_utf8(output).unwrap())
}

#[test]
fn add() {
    let (done, output) = assemble(
        "// Computes R0 = 2 + 3  (R0 refers to RAM[0])\n\
         \n\
         @2\n\
         D=A\n\
         @3\n\
         D=D+A\n\
         @0\n\
         M=D\n",
    );
    assert_eq!(done, Ok(()));
    assert_eq!(
        output,
        "0000000000000010\n\
         1110110000010000\n\
         0000000000000011\n\
         1110000010010000\n\
         0000000000000000\n\
         1110001100001000\n"
    );
}

#[test]
fn the_add_program_without_comments() {
    let (done, output) = assemble("@2\nD=A\n@3\nD=D+A\n@0\nM=D\n");
    assert_eq!(done, Ok(()));
    let lines: Vec<&str> = output.lines().collect();
    assert_eq!(lines.len(), 6);
    assert_eq!(lines[0], "0000000000000010");
    assert_eq!(lines[1], "1110110000010000");
    for line in lines {
        assert_eq!(line.len(), 16);
        assert!(line.chars().all(|c| c == '0' || c == '1'));
    }
}

const MAX: &str = "\
// Computes R2 = max(R0, R1)  (R0,R1,R2 refer to RAM[0],RAM[1],RAM[2])

   @R0
   D=M              // D = first number
   @R1
   D=D-M            // D = first number - second number
   @OUTPUT_FIRST
   D;JGT            // if D>0 (first is greater) goto output_first
   @R1
   D=M              // D = second number
   @OUTPUT_D
   0;JMP            // goto output_d
(OUTPUT_FIRST)
   @R0
   D=M              // D = first number
(OUTPUT_D)
   @R2
   M=D              // M[2] = D (greatest number)
(INFINITE_LOOP)
   @INFINITE_LOOP
   0;JMP            // infinite loop
";

const MAX_L: &str = "\
@0
D=M
@1
D=D-M
@10
D;JGT
@1
D=M
@12
0;JMP
@0
D=M
@2
M=D
@14
0;JMP
";

const MAX_HACK: &str = "\
0000000000000000
1111110000010000
0000000000000001
1111010011010000
0000000000001010
1110001100000001
0000000000000001
1111110000010000
0000000000001100
1110101010000111
0000000000000000
1111110000010000
0000000000000010
1110001100001000
0000000000001110
1110101010000111
";

#[test]
fn max() {
    let (done, output) = assemble(MAX);
    assert_eq!(done, Ok(()));
    assert_eq!(output, MAX_HACK);
}

#[test]
fn max_l() {
    let (done, output) = assemble(MAX_L);
    assert_eq!(done, Ok(()));
    assert_eq!(output, MAX_HACK);
}

#[test]
fn a_label_is_the_address_of_the_instruction_behind_it() {
    let (done, output) = assemble(
        "@1\n\
         D=A\n\
         (LOOP)\n\
         D=D-1\n\
         D;JGT\n\
         @LOOP\n\
         0;JMP\n",
    );
    assert_eq!(done, Ok(()));
    let lines: Vec<&str> = output.lines().collect();
    assert_eq!(lines.len(), 6);
    // Two instructions stand in front of the label.
    assert_eq!(lines[4], "0000000000000010");
}

#[test]
fn a_label_wins_over_a_variable_wherever_it_stands() {
    // `END` is used before it is declared, and `i` and `j` are variables.
    let (done, output) = assemble(
        "@i\n\
         @END\n\
         @j\n\
         (END)\n\
         @END\n\
         @i\n\
         (START)\n\
         (AGAIN)\n\
         @AGAIN\n\
         @START\n",
    );
    assert_eq!(done, Ok(()));
    assert_eq!(
        output,
        "0000000000010000\n\
         0000000000000011\n\
         0000000000010001\n\
         0000000000000011\n\
         0000000000010000\n\
         0000000000000101\n\
         0000000000000101\n"
    );
}

#[test]
fn variables_start_at_sixteen_and_go_up_by_one() {
    let (done, output) = assemble("@a\n@b\n@a\n@c\n@R3\n@b\n@d\n@SCREEN\n@KBD\n@SP\n");
    assert_eq!(done, Ok(()));
    assert_eq!(
        output,
        "0000000000010000\n\
         0000000000010001\n\
         0000000000010000\n\
         0000000000010010\n\
         0000000000000011\n\
         0000000000010001\n\
         0000000000010011\n\
         0100000000000000\n\
         0110000000000000\n\
         0000000000000000\n"
    );
}

#[test]
fn translation_is_repeatable() {
    let first = assemble(MAX);
    let second = assemble(MAX);
    assert_eq!(first, second);
    let failing = "@1\nD=A\nfoo bar\n";
    assert_eq!(assemble(failing), assemble(failing));
}

#[test]
fn an_unknown_line_is_a_syntax_error() {
    let (done, output) = assemble("@1\nD=A\nfoo bar\n@2\n");
    assert_eq!(done, Err(String::from("Error: invalid syntax")));
    // The first pass fails, so nothing is written.
    assert_eq!(output, "");
}

#[test]
fn an_unknown_mnemonic_stops_the_second_pass() {
    let (done, output) = assemble("@1\nD=A\nD=D+D\n@2\n");
    assert_eq!(done, Err(String::from("Error: invalid mnemonic")));
    assert_eq!(output, "0000000000000001\n1110110000010000\n");

    let (done, output) = assemble("@1\nX=A\n");
    assert_eq!(done, Err(String::from("Error: invalid mnemonic")));
    assert_eq!(output, "0000000000000001\n");

    let (done, output) = assemble("D;JXX\n");
    assert_eq!(done, Err(String::from("Error: invalid mnemonic")));
    assert_eq!(output, "");
}

#[test]
fn a_label_cannot_be_declared_twice() {
    let (done, output) = assemble("(LOOP)\n@1\n(LOOP)\n");
    assert_eq!(done, Err(String::from("Error: this symbol has already been defined")));
    assert_eq!(output, "");

    let (done, _) = assemble("(R0)\n");
    assert_eq!(done, Err(String::from("Error: this symbol has already been defined")));
}

#[test]
fn an_address_that_does_not_fit_is_a_syntax_error() {
    let (done, _) = assemble("@32767\n");
    assert_eq!(done, Ok(()));
    let (done, output) = assemble("@32768\n");
    assert_eq!(done, Err(String::from("Error: invalid syntax")));
    assert_eq!(output, "");
}

#[test]
fn the_output_is_added_to_what_is_there() {
    let mut output: Vec<u8> = Vec::from("header\n".as_bytes());
    run(vec![String::from("@5")], &mut output).unwrap();
    assert_eq!(String::from_utf8(output).unwrap(), "header\n0000000000000101\n");
}

#[test]
fn an_empty_program_gives_no_output() {
    assert_eq!(assemble(""), (Ok(()), String::new()));
    assert_eq!(assemble("\n\n// nothing\n(ONLY_A_LABEL)\n"), (Ok(()), String::new()));
}

#[test]
fn an_empty_string_is_a_blank_line() {
    let mut output: Vec<u8> = Vec::new();
    let lines = vec![String::from("@1\n"), String::new(), String::from("@2\n")];
    run(lines, &mut output).unwrap();
    assert_eq!(String::from_utf8(output).unwrap(), "0000000000000001\n0000000000000010\n");
}

#[test]
fn the_variables_run_out() {
    let mut text = String::new();
    for i in 0..16384 {
        text.push_str(&format!("@v{}\n", i));
    }
    let (done, output) = assemble(&text);
    assert_eq!(done, Err(String::from("Error: there are no more free RAM addresses")));
    let mut discarded: Vec<u8> = Vec::new();
    let error = run(text.split_inclusive('\n').map(String::from).collect(), &mut discarded)
        .unwrap_err();
    assert_eq!(error.line_number(), Some(16368));
    let lines: Vec<&str> = output.lines().collect();
    assert_eq!(lines.len(), 16367);
    assert_eq!(lines[0], "0000000000010000");
    assert_eq!(lines[16366], "0011111111111110");
}

#[test]
fn long_programs_are_translated() {
    let mut lines: Vec<String> = Vec::new();
    for _ in 0..32768 {
        lines.push(String::from("0;JMP\n"));
    }
    let mut output: Vec<u8> = Vec::new();
    run(lines.clone(), &mut output).unwrap();
    assert_eq!(output.len(), 32768 * 17);

    // More instructions than a 15-bit address can reach are counted all the same.
    lines.push(String::from("// a comment is no instruction\n"));
    lines.push(String::from("D=A\n"));
    while lines.len() < 65536 {
        lines.push(String::from("0;JMP\n"));
    }
    let mut output: Vec<u8> = Vec::new();
    run(lines.clone(), &mut output).unwrap();
    assert_eq!(output.len(), 65535 * 17);
    assert_eq!(&output[32768 * 17..32769 * 17], "1110110000010000\n".as_bytes());
}

#[test]
fn the_instructions_cannot_be_counted_beyond_sixteen_bits() {
    let mut lines: Vec<String> = Vec::new();
    for _ in 0..65535 {
        lines.push(String::from("0;JMP\n"));
    }
    lines.push(String::from("\n"));
    lines.push(String::from("0;JMP\n"));
    let mut output: Vec<u8> = Vec::new();
    let error = run(lines, &mut output).unwrap_err();
    assert_eq!(error.to_string(), "Error: there are no more free ROM addresses");
    assert_eq!(error.line_number(), Some(65537));
    assert_eq!(output.len(), 0);
}

#[test]
fn a_label_cannot_stand_for_an_address_beyond_fifteen_bits() {
    let mut lines: Vec<String> = Vec::new();
    for _ in 0..32767 {
        lines.push(String::from("0;JMP\n"));
    }
    lines.push(String::from("(LAST)\n"));
    lines.push(String::from("@LAST\n"));
    let mut output: Vec<u8> = Vec::new();
    run(lines.clone(), &mut output).unwrap();
    assert_eq!(&output[32767 * 17..], "0111111111111111\n".as_bytes());

    lines.push(String::from("(BEYOND)\n"));
    let mut output: Vec<u8> = Vec::new();
    let error = run(lines, &mut output).unwrap_err();
    assert_eq!(error.to_string(), "Error: there are no more free ROM addresses");
    assert_eq!(error.line_number(), Some(32770));
    assert_eq!(output.len(), 0);
}

#[test]
fn a_failed_run_names_the_line() {
    let failed = |text: &str| {
        let lines: Vec<String> = text.split_inclusive('\n').map(String::from).collect();
        let mut output: Vec<u8> = Vec::new();
        let error = run(lines, &mut output).unwrap_err();
        (error.to_string(), error.line_number())
    };
    assert_eq!(
        failed("@1\nD=A\nfoo bar\n@2\n"),
        (String::from("Error: invalid syntax"), Some(3))
    );
    assert_eq!(failed("foo bar"), (String::from("Error: invalid syntax"), Some(1)));
    assert_eq!(
        failed("// a comment\n\n(A)\n@1\n(A)\n"),
        (String::from("Error: this symbol has already been defined"), Some(5))
    );
    assert_eq!(
        failed("@1\n(A)\nD=A\nD=D+D // no such computation\n@2\n"),
        (String::from("Error: invalid mnemonic"), Some(4))
    );
    assert_eq!(failed("\n\nD;JXX"), (String::from("Error: invalid mnemonic"), Some(3)));
    // A line that fails in both passes is found by the first.
    assert_eq!(
        failed("D=Q\n@1\n@32768\n"),
        (String::from("Error: invalid syntax"), Some(3))
    );
}

#[test]
fn the_first_pass_stops_at_the_line_that_fails() {
    let mut parser = temp_parser("@1\n(A)\n@2\n(A)\n@3\n");
    let error = first_pass(&mut parser).unwrap_err();
    assert_eq!(error.to_string(), "Error: this symbol has already been defined");
    assert_eq!(error.line_number(), Some(4));
    assert_eq!(parser.line_number(), 4);
    assert_eq!(parser.get_raw_line(), "(A)\n");
    assert_eq!(parser.get_symbol_address("A"), Some(1));
    assert_eq!(parser.rom_address(), 2);
}

#[test]
fn the_first_pass_ends_behind_the_last_line() {
    let mut parser = temp_parser("@1\n(A)\n@2\n");
    assert_eq!(first_pass(&mut parser).unwrap(), 0);
    assert!(parser.at_end());
    assert_eq!(parser.get_raw_line(), "");
    assert_eq!(*parser.get_command(), None);
    assert_eq!(parser.rom_address(), 2);
}

#[test]
fn the_second_pass_stops_at_the_line_that_fails() {
    let mut parser = temp_parser("@1\n@x\nD=Q\n@y\n");
    let mut output: Vec<u8> = Vec::new();
    let error = second_pass(&mut parser, &mut output).unwrap_err();
    assert_eq!(error.to_string(), "Error: invalid mnemonic");
    assert_eq!(error.line_number(), Some(3));
    assert_eq!(parser.line_number(), 3);
    assert_eq!(parser.get_raw_line(), "D=Q\n");
    assert_eq!(parser.get_symbol_address("x"), Some(16));
    assert_eq!(parser.get_symbol_address("y"), None);
    assert_eq!(String::from_utf8(output).unwrap(), "0000000000000001\n0000000000010000\n");
}

#[test]
fn commands_one_at_a_time() {
    let mut parser = temp_parser("(LOOP)\n@LOOP\n@7\n@x\nMD=M+1;JNE\n// nothing\n");

    parser.advance().unwrap();
    assert_eq!(process_l_cmd(&mut parser).unwrap(), 0);
    assert_eq!(parser.get_symbol_address("LOOP"), Some(0));
    assert_eq!(translate_line(&mut parser).unwrap(), None);
    // A label is resolved like the symbol of an A-command.
    assert_eq!(translate_a_cmd(&mut parser).unwrap(), 0);
    assert_eq!(
        translate_c_cmd(&parser).unwrap_err().to_string(),
        "Error: this function cannot act on Commands of this type"
    );

    parser.advance().unwrap();
    assert_eq!(process_l_cmd(&mut parser).unwrap(), 0);
    assert_eq!(parser.rom_address(), 1);
    assert_eq!(translate_line(&mut parser).unwrap(), Some(0));

    parser.advance().unwrap();
    assert_eq!(translate_a_cmd(&mut parser).unwrap(), 7);

    parser.advance().unwrap();
    assert_eq!(translate_a_cmd(&mut parser).unwrap(), 16);
    assert_eq!(translate_a_cmd(&mut parser).unwrap(), 16);

    parser.advance().unwrap();
    assert_eq!(translate_c_cmd(&parser).unwrap(), 0b111_1110111_011_101);
    assert_eq!(translate_line(&mut parser).unwrap(), Some(0b111_1110111_011_101));
    assert_eq!(
        translate_a_cmd(&mut parser).unwrap_err().to_string(),
        "Error: this function cannot act on Commands of this type"
    );

    parser.advance().unwrap();
    assert_eq!(process_l_cmd(&mut parser).unwrap(), 0);
    assert_eq!(parser.rom_address(), 1);
    assert_eq!(translate_line(&mut parser).unwrap(), None);
}

#[test]
fn words_are_written_with_the_highest_bit_first() {
    let mut output: Vec<u8> = Vec::new();
    write_word(&mut output, 0);
    write_word(&mut output, 1);
    write_word(&mut output, 0x8000);
    write_word(&mut output, 0xFFFF);
    write_word(&mut output, 0b1010_0000_1111_0011);
    write_word(&mut output, 24576);
    assert_eq!(
        String::from_utf8(output).unwrap(),
        "0000000000000000\n\
         0000000000000001\n\
         1000000000000000\n\
         1111111111111111\n\
         1010000011110011\n\
         0110000000000000\n"
    );
}

const RECT: &str = "\
// Draws a rectangle at the top-left corner of the screen.
// The rectangle is 16 pixels wide and R0 pixels high.

   @0
   D=M
   @INFINITE_LOOP
   D;JLE
   @counter
   M=D
   @SCREEN
   D=A
   @address
   M=D
(LOOP)
   @address
   A=M
   M=-1
   @address
   D=M
   @32
   D=D+A
   @address
   M=D
   @counter
   MD=M-1
   @LOOP
   D;JGT
(INFINITE_LOOP)
   @INFINITE_LOOP
   0;JMP
";

const RECT_L: &str = "\
@0
D=M
@23
D;JLE
@16
M=D
@16384
D=A
@17
M=D
@17
A=M
M=-1
@17
D=M
@32
D=D+A
@17
M=D
@16
MD=M-1
@10
D;JGT
@23
0;JMP
";

const RECT_HACK: &str = "\
0000000000000000
1111110000010000
0000000000010111
1110001100000110
0000000000010000
1110001100001000
0100000000000000
1110110000010000
0000000000010001
1110001100001000
0000000000010001
1111110000100000
1110111010001000
0000000000010001
1111110000010000
0000000000100000
1110000010010000
0000000000010001
1110001100001000
0000000000010000
1111110010011000
0000000000001010
1110001100000001
0000000000010111
1110101010000111
";

#[test]
fn rect() {
    let (done, output) = assemble(RECT);
    assert_eq!(done, Ok(()));
    assert_eq!(output, RECT_HACK);
}

#[test]
fn rect_l() {
    let (done, output) = assemble(RECT_L);
    assert_eq!(done, Ok(()));
    assert_eq!(output, RECT_HACK);
}

#[test]
fn line_breaks_of_either_kind() {
    let (done, output) = assemble("@1\r\nD=A\r\n(END)\r\n@END\r\n");
    assert_eq!(done, Ok(()));
    assert_eq!(output, "0000000000000001\n1110110000010000\n0000000000000010\n");
}
