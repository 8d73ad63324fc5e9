use ami::pid::{is_white_space_char, parse_decimal_i32, read_pid, read_stop_pid, trim_text, PID_FILE};
use ami::services::daemon_addr_listen;

const SAMPLES: [&str; 22] = [
    "42",
    " 42\n",
    "\t\t-7  ",
    "-2147483648",
    "-2147483649",
    "2147483647",
    "2147483648",
    "4294967295",
    "4294967296",
    "+5",
    "-+5",
    "+-5",
    "-",
    "+",
    "",
    "   ",
    "\u{3000}12\u{a0}",
    "1 2",
    "0012",
    "-0",
    "99999999999999999999999",
    "\u{2028}\u{85}31337\u{200a}\u{1680}",
];

#[test]
fn white_space_agrees_with_std() {
    for u in 0u32..=0x10ffff {
        if let Some(c) = char::from_u32(u) {
            assert_eq!(is_white_space_char(c), c.is_whitespace(), "{u:#x}");
        }
    }
}

#[test]
fn trimming_agrees_with_std() {
    for s in SAMPLES {
        assert_eq!(trim_text(s), s.trim());
    }
    assert_eq!(trim_text(" \u{feff}x "), "\u{feff}x");
}

#[test]
fn signed_numbers_agree_with_std() {
    for s in SAMPLES {
        assert_eq!(parse_decimal_i32(s), s.parse::<i32>().ok(), "{s:?}");
    }
    assert_eq!(parse_decimal_i32("-2147483648"), Some(i32::MIN));
    assert_eq!(parse_decimal_i32("-12"), Some(-12));
}

#[test]
fn pid_files_are_read_as_std_reads_them() {
    for s in SAMPLES {
        assert_eq!(read_pid(s), s.trim().parse::<i32>().ok(), "{s:?}");
        assert_eq!(read_stop_pid(s), s.trim().parse::<u32>().ok(), "{s:?}");
    }
    assert_eq!(read_pid("1234\n"), Some(1234));
    assert_eq!(read_stop_pid("1234\n"), Some(1234));
    assert_eq!(read_stop_pid("-1"), None);
    assert_eq!(PID_FILE, "/tmp/ami_daemon.pid");
}

#[test]
fn listening_on_every_interface() {
    assert_eq!(daemon_addr_listen(), "0.0.0.0:7878");
}
