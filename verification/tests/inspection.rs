use slede8::inspect::{push_registers, push_status, render_dump};
use slede8::parser::check_magic;

#[test]
fn registers_in_two_lines() {
    let mut registers: [u8; 16] = [0; 16];
    registers[0] = 0x01;
    registers[9] = 0x9a;
    registers[15] = 0xff;
    let mut text: String = String::from("#");
    push_registers(&mut text, &registers);
    assert_eq!(
        text,
        "#r0  r1  r2  r3  r4  r5  r6  r7  r8  r9  r10 r11 r12 r13 r14 r15 \n\
         01h 00h 00h 00h 00h 00h 00h 00h 00h 9ah 00h 00h 00h 00h 00h ffh "
    );
}

#[test]
fn the_status_line() {
    let mut text: String = String::new();
    push_status(&mut text, 0, false, 0);
    assert_eq!(text, "pc:    0x0 flagg: false sykler: 0");
    let mut text: String = String::new();
    push_status(&mut text, 0x1000, true, 123456);
    assert_eq!(text, "pc: 0x1000 flagg: true sykler: 123456");
    let mut text: String = String::new();
    push_status(&mut text, 0xfffff, true, 1);
    assert_eq!(text, "pc: 0xfffff flagg: true sykler: 1");
    let mut text: String = String::new();
    push_status(&mut text, 0xffe, false, 10);
    assert_eq!(text, "pc:  0xffe flagg: false sykler: 10");
}

#[test]
fn a_dump_of_sixteen_bytes_has_two_full_lines() {
    let mut memory: [u8; 4096] = [0; 4096];
    let mut i: usize = 0;
    while i < 4096 {
        memory[i] = (i % 256) as u8;
        i += 1;
    }
    assert_eq!(
        render_dump(&memory, 0x10, 0x20),
        "0010: 10 11 12 13 14 15 16 17 \n0018: 18 19 1a 1b 1c 1d 1e 1f \n\n"
    );
    assert_eq!(render_dump(&memory, 0xffd, 0x1000), "0ffd: fd fe ff \n");
    assert_eq!(render_dump(&memory, 0x1000, 0x1000), "\n");
}

#[test]
fn the_header_is_seven_bytes() {
    assert!(check_magic(b".SLEDE8"));
    assert!(check_magic(b".SLEDE8\x01\x02"));
    assert!(!check_magic(b".SLEDE"));
    assert!(!check_magic(b".SLEDE9"));
    assert!(!check_magic(b".slede8"));
    assert!(!check_magic(b""));
}
