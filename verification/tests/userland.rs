use rv32_kernel::shell::{parse_command, trim, until_nul, Command};
use rv32_kernel::user::{
    exit_call, get_char_call, get_char_result, put_byte_call, put_byte_result, readfile_call,
    writefile_call, SysCall,
};

#[test]
fn calls_carry_their_numbers() {
    assert_eq!(put_byte_call(b'A'), SysCall { arg0: 65, arg1: 0, arg2: 0, arg3: 0, sysno: 1 });
    assert_eq!(put_byte_call(255).arg0, 255);
    assert_eq!(get_char_call(), SysCall { arg0: 0, arg1: 0, arg2: 0, arg3: 0, sysno: 2 });
    assert_eq!(exit_call(), SysCall { arg0: 0, arg1: 0, arg2: 0, arg3: 0, sysno: 3 });
    assert_eq!(
        readfile_call(0x0100_2000, 9, 0x0100_3000, 128),
        SysCall { arg0: 0x0100_2000, arg1: 9, arg2: 0x0100_3000, arg3: 128, sysno: 4 }
    );
    assert_eq!(
        writefile_call(0x0100_2000, 8, 0x0100_3000, 21),
        SysCall { arg0: 0x0100_2000, arg1: 8, arg2: 0x0100_3000, arg3: 21, sysno: 5 }
    );
}

#[test]
fn answers_of_the_console_calls() {
    assert_eq!(put_byte_result(0), Ok(()));
    assert_eq!(put_byte_result(0xffff_fffd), Err(0xffff_fffd));
    assert_eq!(put_byte_result(1), Err(1));
    assert_eq!(get_char_result(0x41), Some(0x41));
    assert_eq!(get_char_result(0), Some(0));
    assert_eq!(get_char_result(0xffff_ffff), None);
    assert_eq!(get_char_result(0xffff_fffe), Some(0xffff_fffe));
}

#[test]
fn trim_drops_white_space_at_both_ends() {
    assert_eq!(trim(&b"  hello \r\n".to_vec()), b"hello".to_vec());
    assert_eq!(trim(&b"hello".to_vec()), b"hello".to_vec());
    assert_eq!(trim(&b"a b".to_vec()), b"a b".to_vec());
    assert_eq!(trim(&b"\t\x0b\x0c x".to_vec()), b"x".to_vec());
    assert_eq!(trim(&b" \n ".to_vec()), Vec::<u8>::new());
    assert_eq!(trim(&Vec::new()), Vec::<u8>::new());
    assert_eq!(trim(&b"\0x ".to_vec()), b"\0x".to_vec());
}

#[test]
fn commands_of_the_shell() {
    let mut line = [b'\n'; 128];
    line[..5].copy_from_slice(b"hello");
    assert_eq!(parse_command(&line.to_vec()), Command::Hello);
    assert_eq!(parse_command(&b"exit".to_vec()), Command::Exit);
    assert_eq!(parse_command(&b"readfile\n".to_vec()), Command::ReadFile);
    assert_eq!(parse_command(&b" writefile".to_vec()), Command::WriteFile);
    assert_eq!(parse_command(&b"Hello".to_vec()), Command::Unknown);
    assert_eq!(parse_command(&b"hello world".to_vec()), Command::Unknown);
    assert_eq!(parse_command(&b"hell".to_vec()), Command::Unknown);
    assert_eq!(parse_command(&b"".to_vec()), Command::Unknown);
    assert_eq!(parse_command(&[b'\n'; 128].to_vec()), Command::Unknown);
}

#[test]
fn text_stops_at_the_first_zero_byte() {
    assert_eq!(until_nul(&b"Hello\0\0".to_vec()), Some(5));
    assert_eq!(until_nul(&b"\0".to_vec()), Some(0));
    assert_eq!(until_nul(&b"Hello".to_vec()), None);
    assert_eq!(until_nul(&Vec::new()), None);
}
