use android_adb_run::args::{AdbImplementationSelector, Args, ArgsOutcome, Mode};
use android_adb_run::encode::base64_encode;
use android_adb_run::text::{decimal_chars, parse_u32, parse_u64, split_char, trim_chars};

fn args(list: &[&str]) -> Vec<String> {
    list.iter().map(|s| s.to_string()).collect()
}

#[test]
fn no_flags_runs_the_gui() {
    assert_eq!(
        Args::parse_args(&args(&["prog"])),
        ArgsOutcome::Run(Args { mode: Mode::Gui, debug_mode: false, debug_mode_timeout_secs: None, use_rust_impl: None })
    );
}

#[test]
fn flags_are_read_in_order() {
    assert_eq!(
        Args::parse_args(&args(&["prog", "-s", "--debug", "--timeout=30"])),
        ArgsOutcome::Run(Args {
            mode: Mode::Screenshot,
            debug_mode: true,
            debug_mode_timeout_secs: Some(30),
            use_rust_impl: None,
        })
    );
    assert_eq!(
        Args::parse_args(&args(&["prog", "--screenshot", "--gui"])),
        ArgsOutcome::Run(Args { mode: Mode::Gui, debug_mode: false, debug_mode_timeout_secs: None, use_rust_impl: None })
    );
}

#[test]
fn help_version_and_errors() {
    assert_eq!(Args::parse_args(&args(&["prog", "--debug", "-h"])), ArgsOutcome::ShowHelp);
    assert_eq!(Args::parse_args(&args(&["prog", "--version"])), ArgsOutcome::ShowVersion);
    assert_eq!(
        Args::parse_args(&args(&["prog", "--timeout=abc", "--help"])),
        ArgsOutcome::InvalidTimeout("abc".to_string())
    );
    assert_eq!(
        Args::parse_args(&args(&["prog", "--bogus"])),
        ArgsOutcome::UnknownArgument("--bogus".to_string())
    );
    assert_eq!(
        Args::parse_args(&args(&[])),
        ArgsOutcome::Run(Args { mode: Mode::Gui, debug_mode: false, debug_mode_timeout_secs: None, use_rust_impl: None })
    );
}

#[test]
fn impl_flag_picks_the_backend() {
    assert_eq!(
        Args::parse_args(&args(&["prog", "--screenshot", "--impl=shell"])),
        ArgsOutcome::Run(Args {
            mode: Mode::Screenshot,
            debug_mode: false,
            debug_mode_timeout_secs: None,
            use_rust_impl: Some(false),
        })
    );
    assert_eq!(
        Args::parse_args(&args(&["prog", "--impl=shell", "--impl=rust"])),
        ArgsOutcome::Run(Args {
            mode: Mode::Gui,
            debug_mode: false,
            debug_mode_timeout_secs: None,
            use_rust_impl: Some(true),
        })
    );
    assert_eq!(
        Args::parse_args(&args(&["prog", "--impl=adb", "--help"])),
        ArgsOutcome::InvalidImpl("adb".to_string())
    );
    assert_eq!(
        Args::parse_args(&args(&["prog", "--impl"])),
        ArgsOutcome::UnknownArgument("--impl".to_string())
    );
}

#[test]
fn backend_selector() {
    assert_eq!(true.impl_str(), "rust");
    assert_eq!(false.impl_str(), "shell");
    assert!(true.is_rust());
}

#[test]
fn base64_known_values() {
    assert_eq!(base64_encode(b""), "");
    assert_eq!(base64_encode(b"f"), "Zg==");
    assert_eq!(base64_encode(b"fo"), "Zm8=");
    assert_eq!(base64_encode(b"foo"), "Zm9v");
    assert_eq!(base64_encode(b"foobar"), "Zm9vYmFy");
    assert_eq!(base64_encode(&[0xFF, 0xFE, 0x00]), "//4A");
}

#[test]
fn base64_length_is_four_per_three() {
    for n in 0..20usize {
        let data = vec![7u8; n];
        assert_eq!(base64_encode(&data).len(), (n + 2) / 3 * 4);
    }
}

#[test]
fn decimal_round_trip() {
    for n in [0u32, 7, 10, 99, 1682, u32::MAX] {
        let d = decimal_chars(n as u128);
        assert_eq!(d.iter().collect::<String>(), n.to_string());
        assert_eq!(parse_u32(&d), Some(n));
    }
}

#[test]
fn number_parsing_like_from_str() {
    let c = |s: &str| s.chars().collect::<Vec<char>>();
    assert_eq!(parse_u32(&c("+5")), Some(5));
    assert_eq!(parse_u32(&c("+")), None);
    assert_eq!(parse_u32(&c("4294967296")), None);
    assert_eq!(parse_u64(&c("18446744073709551615")), Some(u64::MAX));
    assert_eq!(parse_u64(&c("")), None);
    assert_eq!(trim_chars(&c("\t a b \n")), c("a b"));
    let parts: Vec<String> = split_char(&c(",a,,b"), ',').into_iter().map(|p| p.into_iter().collect()).collect();
    assert_eq!(parts, vec!["", "a", "", "b"]);
}

fn decode_b64(s: &str) -> Vec<u8> {
    let val = |c: u8| -> u32 {
        match c {
            b'A'..=b'Z' => (c - b'A') as u32,
            b'a'..=b'z' => (c - b'a') as u32 + 26,
            b'0'..=b'9' => (c - b'0') as u32 + 52,
            b'+' => 62,
            _ => 63,
        }
    };
    let b = s.as_bytes();
    let mut out = Vec::new();
    for q in b.chunks(4) {
        let v: Vec<u32> = q.iter().map(|&c| if c == b'=' { 0 } else { val(c) }).collect();
        let g = (v[0] << 18) | (v[1] << 12) | (v[2] << 6) | v[3];
        out.push((g >> 16) as u8);
        if q[2] != b'=' {
            out.push((g >> 8) as u8);
        }
        if q[3] != b'=' {
            out.push(g as u8);
        }
    }
    out
}

#[test]
fn base64_alphabet_padding_and_round_trip() {
    for n in 0..12usize {
        let data: Vec<u8> = (0..n).map(|i| (i * 97 + 13) as u8).collect();
        let text = base64_encode(&data);
        let pad = match n % 3 { 1 => 2, 2 => 1, _ => 0 };
        let chars: Vec<char> = text.chars().collect();
        for (i, c) in chars.iter().enumerate() {
            if i + pad >= chars.len() {
                assert_eq!(*c, '=');
            } else {
                assert!(c.is_ascii_alphanumeric() || *c == '+' || *c == '/');
            }
        }
        assert_eq!(decode_b64(&text), data);
    }
}
