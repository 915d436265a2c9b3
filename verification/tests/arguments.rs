use mxkeys_f4d::config::{parse_args, usage, Arguments, Config};
use mxkeys_f4d::numeral::{decimal, hexadecimal, read_argument};

fn parse(args: &[&str]) -> Arguments {
    let args: Vec<String> = args.iter().map(|arg| arg.to_string()).collect();
    parse_args(&args)
}

#[test]
fn defaults_are_the_mx_keys() {
    let cfg = Config::default();
    assert_eq!(
        cfg,
        Config { vendor_id: 0x046D, product_id: 0xB35B, cid: 0x00E1, key_code: 79, verbose: false }
    );
    let parsed = parse(&[]);
    assert_eq!(parsed.cfg, cfg);
    assert!(parsed.unknown.is_empty());
    assert!(!parsed.help);
}

#[test]
fn decimal_and_hexadecimal_agree() {
    let decimal = parse(&["--vendor", "1133", "--product", "45915", "--cid", "225", "--key", "79"]);
    let hex = parse(&["--vendor", "0x046d", "--product", "0xB35B", "--cid", "0x00e1", "--key", "0x4F"]);
    assert_eq!(decimal.cfg, Config::default());
    assert_eq!(hex.cfg, Config::default());
}

#[test]
fn every_flag_sets_its_field() {
    let parsed = parse(&["--vendor", "1", "--product", "2", "--cid", "3", "--key", "4", "-v"]);
    assert_eq!(
        parsed.cfg,
        Config { vendor_id: 1, product_id: 2, cid: 3, key_code: 4, verbose: true }
    );
    assert!(parse(&["--verbose"]).cfg.verbose);
}

#[test]
fn last_value_counts() {
    assert_eq!(parse(&["--cid", "5", "--cid", "6"]).cfg.cid, 6);
    assert_eq!(parse(&["--cid", "5", "--cid", "many"]).cfg.cid, 5);
}

#[test]
fn values_that_are_no_numbers_are_swallowed() {
    let parsed = parse(&["--key", "--verbose"]);
    assert_eq!(parsed.cfg, Config::default());
    assert!(parsed.unknown.is_empty());
}

#[test]
fn flag_without_value_changes_nothing() {
    let parsed = parse(&["-v", "--cid"]);
    assert_eq!(parsed.cfg, Config { verbose: true, ..Config::default() });
    assert!(parsed.unknown.is_empty());
    assert!(!parsed.help);
}

#[test]
fn unknown_arguments_are_named_in_order() {
    let parsed = parse(&["one", "--key", "7", "--Verbose", "", "two"]);
    assert_eq!(parsed.cfg, Config { key_code: 7, ..Config::default() });
    assert_eq!(parsed.unknown, ["one", "--Verbose", "", "two"]);
}

#[test]
fn nothing_is_read_behind_help() {
    let parsed = parse(&["--cid", "5", "what", "-h", "--cid", "6", "more"]);
    assert!(parsed.help);
    assert_eq!(parsed.cfg.cid, 5);
    assert_eq!(parsed.unknown, ["what"]);
    assert!(parse(&["--help"]).help);
    assert!(!parse(&["--cid", "--help"]).help);
}

#[test]
fn large_values_wrap() {
    assert_eq!(parse(&["--cid", "0x100e1"]).cfg.cid, 0x00E1);
    assert_eq!(parse(&["--cid", "-1"]).cfg.cid, 0xFFFF);
    assert_eq!(parse(&["--key", "65615"]).cfg.key_code, 79);
    assert_eq!(parse(&["--vendor", "0x80000000"]).cfg.vendor_id, i32::MIN);
    assert_eq!(parse(&["--vendor", "4294967297"]).cfg.vendor_id, 1);
    assert_eq!(parse(&["--product", "-2147483649"]).cfg.product_id, i32::MAX);
}

#[test]
fn integers_are_read_as_std_reads_them() {
    for text in [
        "", "0", "-0", "+0", "+", "-", "+-1", "--1", "7", "+7", "-7", "007", "1 ", " 1", "1_0", "a",
        "9223372036854775807", "9223372036854775808", "-9223372036854775808", "-9223372036854775809",
        "99999999999999999999999999999999999999999999999999", "00000000000000000000000000000000005",
        "\u{0663}", "x", "1x", "0X10",
    ] {
        assert_eq!(read_argument(text), i64::from_str_radix(text, 10).ok(), "{text:?}");
        let hex = format!("0x{text}");
        assert_eq!(read_argument(&hex), i64::from_str_radix(text, 16).ok(), "{hex:?}");
    }
    for text in ["7fffffffffffffff", "8000000000000000", "-8000000000000000", "FfaA", "g", "1G"] {
        let hex = format!("0x{text}");
        assert_eq!(read_argument(&hex), i64::from_str_radix(text, 16).ok(), "{hex:?}");
    }
}

#[test]
fn hexadecimal_mark_may_be_repeated() {
    assert_eq!(read_argument("0x0x10"), Some(16));
    assert_eq!(read_argument("0x0x"), None);
    assert_eq!(read_argument("0x"), None);
    assert_eq!(read_argument("0x-10"), Some(-16));
    assert_eq!(read_argument("-0x10"), None);
}

#[test]
fn written_numbers_are_read_back() {
    for n in [0u32, 1, 9, 10, 99, 225, 1133, 45915, u32::MAX] {
        assert_eq!(read_argument(&decimal(n)), Some(n as i64));
        assert_eq!(read_argument(&format!("-{}", decimal(n))), Some(-(n as i64)));
        assert_eq!(read_argument(&format!("0x{}", hexadecimal(n, 8))), Some(n as i64));
    }
}

#[test]
fn numbers_are_written_as_std_writes_them() {
    for n in [0u32, 1, 9, 10, 11, 100, 12345, 4294967295] {
        assert_eq!(decimal(n), n.to_string());
        assert_eq!(hexadecimal(n, 8), format!("{n:08x}"));
    }
    assert_eq!(hexadecimal(0x1234, 2), "34");
    assert_eq!(hexadecimal(5, 0), "");
}

#[test]
fn usage_names_the_defaults() {
    assert_eq!(
        usage(),
        "mxkeys-f4d — divert one Logitech HID++ control and post a key for it\n\n\
         \x20 --vendor <id>    default 0x046d\n\
         \x20 --product <id>   default 0xb35b (MX Keys)\n\
         \x20 --cid <id>       control to divert, default 0x00e1 (F4)\n\
         \x20 --key <code>     virtual key code to post, default 79 (F18)\n\
         \x20 --verbose        log every keypress"
    );
}
