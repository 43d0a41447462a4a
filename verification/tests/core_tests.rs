use affine_io::hwid::{display_path, match_hwid, parse_com_name};
use affine_io::ini::{eq_ignore_case_range, ini_get_bool, ini_get_u32, ini_lookup, parse_bool, parse_u32, trim_range, u32_from_radix_at};
use affine_io::log::{log_diag, log_fail, log_info, log_line, log_ok, log_warn};
use affine_io::types::{AimeIoVfdState, MercuryLedData, E_FAIL, E_INVALIDARG, S_FALSE, S_OK};
use affine_io::util::{should_log, LOG_INTERVAL_MS};

fn wide(s: &str) -> Vec<u8> {
    s.encode_utf16().flat_map(|u| u.to_le_bytes()).collect()
}

#[test]
fn hwid_matching() {
    let raw = wide("USB\\VID_AFF1&PID_52A4&MI_00\0USB\\VID_AFF1&PID_52A4\0\0");
    assert!(match_hwid(&raw, 0xAFF1, 0x52A4));
    assert!(!match_hwid(&raw, 0xAFF1, 0x52A5));
    assert!(!match_hwid(&raw, 0xAFF2, 0x52A4));
    // Both markers must be in one id.
    let split = wide("USB\\VID_AFF1\0USB\\PID_52A4\0\0");
    assert!(!match_hwid(&split, 0xAFF1, 0x52A4));
    // The second id matches.
    let second = wide("HID\\VID_1234\0USB\\VID_AFF1&PID_52A7\0\0");
    assert!(match_hwid(&second, 0xAFF1, 0x52A7));
    // Ids after an empty one are not read.
    let after_empty = wide("\0USB\\VID_AFF1&PID_52A4\0");
    assert!(!match_hwid(&after_empty, 0xAFF1, 0x52A4));
    // Markers are upper-case and zero-padded.
    let lower = wide("USB\\vid_aff1&pid_52a4\0\0");
    assert!(!match_hwid(&lower, 0xAFF1, 0x52A4));
    let padded = wide("USB\\VID_00AB&PID_0C0D\0");
    assert!(match_hwid(&padded, 0x00AB, 0x0C0D));
    // Without a trailing NUL, and with an odd trailing byte.
    let mut bare = wide("USB\\VID_AFF1&PID_52A4");
    assert!(match_hwid(&bare, 0xAFF1, 0x52A4));
    bare.push(0x41);
    assert!(match_hwid(&bare, 0xAFF1, 0x52A4));
    assert!(!match_hwid(&[], 0xAFF1, 0x52A4));
}

#[test]
fn com_port_names() {
    assert_eq!(parse_com_name(&wide("USB Serial Device (COM12)\0")), Some(String::from("\\\\.\\COM12")));
    assert_eq!(parse_com_name(&wide("Affine (COM3) (COM4)")), Some(String::from("\\\\.\\COM3")));
    assert_eq!(parse_com_name(&wide("COMPORT7 x")), Some(String::from("\\\\.\\COMPORT7")));
    assert_eq!(parse_com_name(&wide("USB Serial Device")), None);
    // Text after the first NUL is not read.
    assert_eq!(parse_com_name(&wide("Device\0(COM5)")), None);
    assert_eq!(parse_com_name(&wide("com5")), None);
    assert_eq!(parse_com_name(&[]), None);
}

const CONFIG: &[u8] = b"; comment\n[aime]\nenable = 1\n\n[Affine]\n  Debug=YES \r\n# other\nScanInterval = 0x1F\nplain=42\nbig=4294967296\nbad=12a\nsigned=+7\nempty=\n[other]\nplain=7\n";

#[test]
fn ini_values() {
    assert!(ini_get_bool(CONFIG, b"affine", b"debug", false));
    assert!(ini_get_bool(CONFIG, b"aime", b"enable", false));
    assert!(!ini_get_bool(CONFIG, b"affine", b"missing", false));
    assert!(ini_get_bool(CONFIG, b"affine", b"plain", true));
    assert_eq!(ini_get_u32(CONFIG, b"affine", b"scaninterval", 5), 0x1F);
    assert_eq!(ini_get_u32(CONFIG, b"Affine", b"plain", 5), 42);
    assert_eq!(ini_get_u32(CONFIG, b"other", b"plain", 5), 7);
    assert_eq!(ini_get_u32(CONFIG, b"affine", b"big", 5), 5);
    assert_eq!(ini_get_u32(CONFIG, b"affine", b"bad", 5), 5);
    assert_eq!(ini_get_u32(CONFIG, b"affine", b"signed", 5), 7);
    assert_eq!(ini_get_u32(CONFIG, b"affine", b"empty", 5), 5);
    assert_eq!(ini_get_u32(CONFIG, b"nosection", b"plain", 5), 5);
    // Keys before any section belong to no section.
    assert_eq!(ini_get_u32(b"plain=3\n[a]\n", b"", b"plain", 5), 3);
    assert_eq!(ini_get_u32(b"", b"a", b"plain", 5), 5);
}

#[test]
fn ini_lookup_ranges() {
    let text = b"[s]\n k = v v \n";
    let (a, b) = ini_lookup(text, b"S", b"K").expect("found");
    assert_eq!(&text[a..b], b"v v");
    assert!(ini_lookup(text, b"s", b"v").is_none());
    // The first matching line wins; text after the first '=' is the value.
    let text = b"[s]\nk=a=b\nk=c\n";
    let (a, b) = ini_lookup(text, b"s", b"k").expect("found");
    assert_eq!(&text[a..b], b"a=b");
}

#[test]
fn bool_values() {
    for yes in [&b"1"[..], b"true", b"TRUE", b"Yes", b"on", b"ON"] {
        assert_eq!(parse_bool(yes), Some(true));
    }
    for no in [&b"0"[..], b"false", b"No", b"off", b"OFF"] {
        assert_eq!(parse_bool(no), Some(false));
    }
    for other in [&b""[..], b"2", b"yess", b"y", b"onn"] {
        assert_eq!(parse_bool(other), None);
    }
}

#[test]
fn number_values() {
    assert_eq!(parse_u32(b"0"), Some(0));
    assert_eq!(parse_u32(b"4294967295"), Some(u32::MAX));
    assert_eq!(parse_u32(b"4294967296"), None);
    assert_eq!(parse_u32(b"0x70"), Some(0x70));
    assert_eq!(parse_u32(b"0XfFfFfFfF"), Some(u32::MAX));
    assert_eq!(parse_u32(b"0x100000000"), None);
    assert_eq!(parse_u32(b"0x"), None);
    assert_eq!(parse_u32(b"+12"), Some(12));
    assert_eq!(parse_u32(b"+"), None);
    assert_eq!(parse_u32(b"-1"), None);
    assert_eq!(parse_u32(b"1 2"), None);
    assert_eq!(parse_u32(b"12a"), None);
    assert_eq!(parse_u32(b""), None);
    assert_eq!(parse_u32(b"0012"), Some(12));
    assert_eq!(u32_from_radix_at(b"xxff", 2, 16), Some(255));
    assert_eq!(u32_from_radix_at(b"xx", 2, 10), None);
}

#[test]
fn trimming_and_case() {
    let s = b"  ab c \t";
    assert_eq!(trim_range(s, 0, s.len()), (2, 6));
    let nbsp = "\u{a0}x\u{3000}".as_bytes();
    assert_eq!(trim_range(nbsp, 0, nbsp.len()), (2, 3));
    assert_eq!(trim_range(b"   ", 0, 3).0, trim_range(b"   ", 0, 3).1);
    assert!(eq_ignore_case_range(b"xHeLLoy", 1, 6, b"hello"));
    assert!(!eq_ignore_case_range(b"xHeLLoy", 1, 5, b"hello"));
    assert!(!eq_ignore_case_range(b"[]", 0, 2, b"{}"));
}

#[test]
fn log_lines() {
    let l = log_info("started");
    assert_eq!(l.plain, "[Affine IO] started");
    assert_eq!(l.colored, "[Affine IO] started");
    let l = log_ok("connected");
    assert_eq!(l.plain, "[Affine IO] connected [OK]");
    assert_eq!(l.colored, "[Affine IO] connected \x1b[32;1m[OK]\x1b[0m");
    let l = log_warn("retrying");
    assert_eq!(l.plain, "[Affine IO] retrying [WARN]");
    assert_eq!(l.colored, "[Affine IO] retrying \x1b[33;1m[WARN]\x1b[0m");
    let l = log_fail("lost");
    assert_eq!(l.plain, "[Affine IO] lost [FAIL]");
    assert_eq!(l.colored, "[Affine IO] lost \x1b[31;1m[FAIL]\x1b[0m");
    let l = log_diag("rx 12");
    assert_eq!(l.plain, "[Affine IO] rx 12");
    assert_eq!(l.colored, "\x1b[90m[Affine IO] rx 12\x1b[0m");
    // A line that already has the prefix does not get it twice.
    let l = log_line("[Affine IO] hello");
    assert_eq!(l.plain, "[Affine IO] hello");
    let l = log_line("hello");
    assert_eq!(l.plain, "[Affine IO] hello");
    let l = log_line("[Affine IO]x");
    assert_eq!(l.plain, "[Affine IO] [Affine IO]x");
}

#[test]
fn repeated_log_lines_are_rate_limited() {
    let mut last = 1_000u64;
    assert!(!should_log(&mut last, 1_000 + LOG_INTERVAL_MS - 1));
    assert!(should_log(&mut last, 1_000 + LOG_INTERVAL_MS));
    assert_eq!(last, 1_000 + LOG_INTERVAL_MS);
    assert!(!should_log(&mut last, 2 * LOG_INTERVAL_MS + 999));
    assert!(should_log(&mut last, u64::MAX));
}

#[test]
fn types_and_codes() {
    assert_eq!(S_OK, 0);
    assert_eq!(S_FALSE, 1);
    assert_eq!(E_FAIL as u32, 0x8000_4005);
    assert_eq!(E_INVALIDARG as u32, 0x8007_0057);
    let vfd = AimeIoVfdState::new();
    assert_eq!((vfd.encoding, vfd.screen_on, vfd.clear_seq), (0, 0, 0));
    let leds = MercuryLedData::new();
    assert_eq!(leds.unitCount, 0);
    assert!(leds.rgba.iter().all(|&b| b == 0));
}

#[test]
fn display_paths() {
    assert_eq!(display_path("\\\\.\\COM12"), "COM12");
    assert_eq!(display_path("\\\\.\\\\\\.\\COM3"), "COM3");
    assert_eq!(display_path("COM4"), "COM4");
    assert_eq!(display_path("\\\\.COM5"), "\\\\.COM5");
    assert_eq!(display_path("\\\\.\\"), "");
    assert_eq!(display_path(""), "");
}

#[test]
fn ini_written_value_read_back() {
    let text = b"[Touch]\np1Enable=0\n";
    assert!(!ini_get_bool(text, b"touch", b"P1ENABLE", true));
    let text = b"[io4]\ncoin=0x33\n";
    assert_eq!(ini_get_u32(text, b"IO4", b"Coin", 0), 0x33);
    let (a, b) = ini_lookup(b"[s]\n=v\n", b"s", b"").expect("empty key");
    assert_eq!((a, b), (5, 6));
}
