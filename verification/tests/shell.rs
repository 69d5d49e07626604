use slede8::debugger::{
    parse_command, read_address, separates, split, Command, Debugger,
};
use slede8::text::{chars_of, digit, digit_value, digits_of, push_chars, push_filler, push_number, push_padded_left, push_padded_right};

fn word(text: &str) -> Vec<char> {
    text.chars().collect()
}

#[test]
fn a_line_that_starts_with_c_continues() {
    assert_eq!(parse_command("c"), Command::Continue);
    assert_eq!(parse_command("continue"), Command::Continue);
    assert_eq!(parse_command("c 12 13"), Command::Continue);
}

#[test]
fn any_other_line_is_a_step() {
    assert_eq!(parse_command(""), Command::Step);
    assert_eq!(parse_command("s"), Command::Step);
    assert_eq!(parse_command(" c"), Command::Step);
    assert_eq!(parse_command(" m 1 2"), Command::Step);
    assert_eq!(parse_command("next"), Command::Step);
    assert_eq!(parse_command("C"), Command::Step);
}

#[test]
fn a_memory_command_takes_two_addresses() {
    assert_eq!(parse_command("m 10 20"), Command::Memory(0x10, 0x20));
    assert_eq!(parse_command("mem   0  fFf  "), Command::Memory(0, 0xfff));
    assert_eq!(parse_command("m\t+a\t+B extra"), Command::Memory(10, 11));
    assert_eq!(parse_command("m 10 5"), Command::Memory(0x10, 0x5));
    assert_eq!(parse_command("m 0010 0"), Command::Memory(0x10, 0));
}

#[test]
fn a_memory_command_without_two_addresses_is_malformed() {
    assert_eq!(parse_command("m"), Command::MemoryMalformed);
    assert_eq!(parse_command("m 10"), Command::MemoryMalformed);
    assert_eq!(parse_command("m 10 "), Command::MemoryMalformed);
    assert_eq!(parse_command("m 10 zz"), Command::MemoryMalformed);
    assert_eq!(parse_command("m 0x10 20"), Command::MemoryMalformed);
    assert_eq!(parse_command("m -1 20"), Command::MemoryMalformed);
    assert_eq!(parse_command("m10 20"), Command::MemoryMalformed);
}

#[test]
fn a_breakpoint_command_takes_one_address() {
    assert_eq!(parse_command("b 1f"), Command::Breakpoint(0x1f));
    assert_eq!(parse_command("break 0"), Command::Breakpoint(0));
    assert_eq!(parse_command("b xyz"), Command::BreakpointMalformed);
    assert_eq!(parse_command("b +"), Command::BreakpointMalformed);
    assert_eq!(parse_command("b"), Command::ListBreakpoints);
    assert_eq!(parse_command("b 1 2"), Command::ListBreakpoints);
    assert_eq!(parse_command("b1"), Command::ListBreakpoints);
}

#[test]
fn addresses_are_hexadecimal() {
    assert_eq!(read_address(&word("0")), Some(0));
    assert_eq!(read_address(&word("ff")), Some(255));
    assert_eq!(read_address(&word("FF")), Some(255));
    assert_eq!(read_address(&word("+1a")), Some(26));
    assert_eq!(read_address(&word("000000000000000000000000000001")), Some(1));
    assert_eq!(read_address(&word("")), None);
    assert_eq!(read_address(&word("+")), None);
    assert_eq!(read_address(&word("++1")), None);
    assert_eq!(read_address(&word("-1")), None);
    assert_eq!(read_address(&word("1g")), None);
    assert_eq!(read_address(&word("g1")), None);
    assert_eq!(read_address(&word("1_0")), None);
    assert_eq!(read_address(&word("0x10")), None);
}

#[test]
fn addresses_agree_with_the_standard_library() {
    let samples: [&str; 12] =
        ["0", "7f", "+7F", "ffffffff", "ffffffffffffffff", "10000000000000000", "fffffffffffffffff",
         "", "+", "-0", "12 ", "é"];
    for sample in samples {
        assert_eq!(read_address(&word(sample)), usize::from_str_radix(sample, 16).ok());
    }
}

#[test]
fn an_address_too_large_for_the_machine_word_is_refused() {
    let largest: String = format!("{:x}", usize::MAX);
    assert_eq!(read_address(&word(&largest)), Some(usize::MAX));
    let mut too_large: String = largest.clone();
    too_large.push('0');
    assert_eq!(read_address(&word(&too_large)), None);
    let mut next: String = String::from("1");
    for _ in 0..largest.len() {
        next.push('0');
    }
    assert_eq!(read_address(&word(&next)), None);
}

#[test]
fn hexadecimal_digits_in_either_case() {
    assert_eq!(digit_value('0'), Some(0));
    assert_eq!(digit_value('9'), Some(9));
    assert_eq!(digit_value('a'), Some(10));
    assert_eq!(digit_value('f'), Some(15));
    assert_eq!(digit_value('A'), Some(10));
    assert_eq!(digit_value('F'), Some(15));
    assert_eq!(digit_value('g'), None);
    assert_eq!(digit_value('G'), None);
    assert_eq!(digit_value('/'), None);
    assert_eq!(digit_value(':'), None);
    assert_eq!(digit_value('@'), None);
    assert_eq!(digit_value('`'), None);
}

#[test]
fn words_are_split_at_spaces() {
    assert_eq!(split(&word("m 10 20")), vec![word("m"), word("10"), word("20")]);
    assert_eq!(split(&word("  m\t10\n\n20  ")), vec![word("m"), word("10"), word("20")]);
    assert_eq!(split(&word("one")), vec![word("one")]);
    assert_eq!(split(&word("")), Vec::<Vec<char>>::new());
    assert_eq!(split(&word(" \t ")), Vec::<Vec<char>>::new());
    assert_eq!(split(&word("a\u{a0}b\u{3000}c")), vec![word("a"), word("b"), word("c")]);
}

#[test]
fn spaces_are_the_unicode_white_space() {
    let mut code: u32 = 0;
    while code <= 0x3100 {
        if let Some(c) = char::from_u32(code) {
            assert_eq!(separates(c), c.is_whitespace());
        }
        code += 1;
    }
    assert!(!separates('\u{10ffff}'));
}

#[test]
fn a_line_as_characters() {
    assert_eq!(chars_of("m 1é"), vec!['m', ' ', '1', 'é']);
    assert_eq!(chars_of(""), Vec::<char>::new());
}

#[test]
fn a_new_shell_asks_and_has_no_breakpoints() {
    let shell: Debugger = Debugger::new();
    assert!(shell.stepping);
    assert!(shell.breakpoints.is_empty());
}

#[test]
fn continue_ends_the_asking_until_a_breakpoint() {
    let mut shell: Debugger = Debugger::new();
    assert!(!shell.obey(Command::Breakpoint(8)));
    assert!(!shell.obey(Command::Breakpoint(2)));
    assert_eq!(shell.breakpoints, vec![8, 2]);
    assert!(shell.stepping);
    assert!(shell.obey(Command::Continue));
    assert!(!shell.stepping);
    assert!(!shell.arrive(4));
    assert!(!shell.stepping);
    assert!(shell.arrive(2));
    assert!(shell.stepping);
    assert!(shell.obey(Command::Step));
    assert!(shell.stepping);
    assert!(shell.arrive(8));
    assert!(!shell.arrive(6));
    assert!(shell.stepping);
    assert_eq!(shell.breakpoints, vec![8, 2]);
}

#[test]
fn other_commands_execute_nothing() {
    let mut shell: Debugger = Debugger::new();
    assert!(!shell.obey(Command::Memory(0, 8)));
    assert!(!shell.obey(Command::MemoryMalformed));
    assert!(!shell.obey(Command::BreakpointMalformed));
    assert!(!shell.obey(Command::ListBreakpoints));
    assert!(shell.stepping);
    assert!(shell.breakpoints.is_empty());
}

#[test]
fn digits_of_numbers() {
    assert_eq!(digits_of(0, 10), vec!['0']);
    assert_eq!(digits_of(9, 10), vec!['9']);
    assert_eq!(digits_of(10, 10), vec!['1', '0']);
    assert_eq!(digits_of(4096, 10), vec!['4', '0', '9', '6']);
    assert_eq!(digits_of(0, 16), vec!['0']);
    assert_eq!(digits_of(0xabc, 16), vec!['a', 'b', 'c']);
    assert_eq!(digits_of(255, 16), vec!['f', 'f']);
    assert_eq!(digits_of(5, 2), vec!['1', '0', '1']);
    let all: String = digits_of(usize::MAX, 10).into_iter().collect();
    assert_eq!(all, usize::MAX.to_string());
    assert_eq!(digit(0), '0');
    assert_eq!(digit(9), '9');
    assert_eq!(digit(10), 'a');
    assert_eq!(digit(15), 'f');
}

#[test]
fn numbers_are_padded_to_a_width() {
    let mut text: String = String::from(">");
    push_number(&mut text, 0xab, 16, 4, '0');
    assert_eq!(text, ">00ab");
    push_number(&mut text, 0x12345, 16, 4, '0');
    assert_eq!(text, ">00ab12345");
    push_number(&mut text, 7, 10, 0, ' ');
    assert_eq!(text, ">00ab123457");
    push_number(&mut text, 7, 10, 3, ' ');
    assert_eq!(text, ">00ab123457  7");
}

#[test]
fn characters_are_padded_on_either_side() {
    let mut text: String = String::new();
    push_padded_left(&mut text, &vec!['a', 'b'], 4, '.');
    assert_eq!(text, "..ab");
    push_padded_right(&mut text, &vec!['c'], 3, '-');
    assert_eq!(text, "..abc--");
    push_padded_right(&mut text, &vec!['d', 'e', 'f'], 2, '-');
    assert_eq!(text, "..abc--def");
    push_filler(&mut text, 2, '!');
    push_filler(&mut text, 0, '?');
    push_chars(&mut text, &vec!['x', 'y']);
    assert_eq!(text, "..abc--def!!xy");
}
