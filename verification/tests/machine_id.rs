use machine_uid::bsd;
use machine_uid::errors::Error;
use machine_uid::illumos;
use machine_uid::linux;
use machine_uid::macos;
use machine_uid::windows;

#[test]
fn linux_primary_wins() {
    let r = linux::get_machine_id(Some("abc123\n".to_string()), None);
    assert_eq!(r, Ok("abc123".to_string()));
}

#[test]
fn linux_fallback_used() {
    let r = linux::get_machine_id(None, Some("def456\n".to_string()));
    assert_eq!(r, Ok("def456".to_string()));
}

#[test]
fn linux_both_missing() {
    let r = linux::get_machine_id(None, None);
    assert_eq!(r, Err(Error::FileUnreadable));
}

#[test]
fn linux_primary_shadows_fallback() {
    let r = linux::get_machine_id(Some(" a \n".to_string()), Some("zzz".to_string()));
    assert_eq!(r, Ok("a".to_string()));
}

#[test]
fn linux_blank_file_yields_empty() {
    let r = linux::get_machine_id(Some("  \n".to_string()), None);
    assert_eq!(r, Ok(String::new()));
}

#[test]
fn linux_no_edge_whitespace() {
    let r = linux::get_machine_id(Some("\t 0123456789abcdef0123456789abcdef\r\n".to_string()), None);
    let id = r.unwrap();
    assert_eq!(id, "0123456789abcdef0123456789abcdef");
    assert!(!id.starts_with(char::is_whitespace));
    assert!(!id.ends_with(char::is_whitespace));
}

#[test]
fn macos_extract_quoted_value() {
    let r = macos::extract_id("    \"IOPlatformUUID\" = \"1234-5678\"");
    assert_eq!(r, Ok("1234-5678".to_string()));
}

#[test]
fn macos_extract_not_found() {
    let r = macos::extract_id("no uuid here\nfoo = bar\n");
    assert_eq!(r, Err(Error::PatternNotFound));
}

#[test]
fn macos_extract_from_full_output() {
    let content = "+-o MacBookPro  <class IOPlatformExpertDevice>\n    {\n      \"IOPlatformSerialNumber\" = \"C02ABCD\"\n      \"IOPlatformUUID\" = \"11112222-3333-4444-5555-666677778888\"\n      \"clock-frequency\" = <00366e01>\n    }\n";
    let r = macos::extract_id(content);
    assert_eq!(r, Ok("11112222-3333-4444-5555-666677778888".to_string()));
}

#[test]
fn macos_extract_first_marker_line_wins() {
    let content = "\"IOPlatformUUID\" = \"first\"\n\"IOPlatformUUID\" = \"second\"\n";
    let r = macos::extract_id(content);
    assert_eq!(r, Ok("first".to_string()));
}

#[test]
fn macos_extract_splits_on_last_equals() {
    let r = macos::extract_id("\"IOPlatformUUID\" = a = \"b-c\"\n");
    assert_eq!(r, Ok("b-c".to_string()));
}

#[test]
fn macos_extract_marker_line_without_equals() {
    let r = macos::extract_id("  IOPlatformUUID  \n");
    assert_eq!(r, Ok("IOPlatformUUID".to_string()));
}

#[test]
fn macos_spawn_failure() {
    let r = macos::get_machine_id(None);
    assert_eq!(r, Err(Error::ProcessSpawnFailed));
}

#[test]
fn macos_output_bytes() {
    let bytes = b"    \"IOPlatformUUID\" = \"ABCD-EF01\"\n".to_vec();
    let r = macos::get_machine_id(Some(bytes));
    assert_eq!(r, Ok("ABCD-EF01".to_string()));
}

#[test]
fn bsd_hostid_file_wins() {
    let r = bsd::get_machine_id(Some("12345678\n".to_string()), None);
    assert_eq!(r, Ok("12345678".to_string()));
}

#[test]
fn bsd_helper_output_used() {
    let r = bsd::get_machine_id(None, Some(b"11112222-3333-4444-5555-666677778888\n".to_vec()));
    assert_eq!(r, Ok("11112222-3333-4444-5555-666677778888".to_string()));
}

#[test]
fn bsd_invalid_utf8_replaced() {
    let r = bsd::get_machine_id(None, Some(vec![0xff]));
    assert_eq!(r, Ok("\u{fffd}".to_string()));
}

#[test]
fn bsd_neither_source() {
    let r = bsd::get_machine_id(None, None);
    assert_eq!(r, Err(Error::ProcessSpawnFailed));
}

#[test]
fn windows_value_trimmed() {
    let r = windows::get_machine_id(true, Some(" 140B9BE6-0533-47A8-BE45-CF8F3C54D0B3 ".to_string()));
    assert_eq!(r, Ok("140B9BE6-0533-47A8-BE45-CF8F3C54D0B3".to_string()));
}

#[test]
fn windows_key_unopenable() {
    let r = windows::get_machine_id(false, None);
    assert_eq!(r, Err(Error::RegistryKeyUnopenable));
}

#[test]
fn windows_value_unreadable() {
    let r = windows::get_machine_id(true, None);
    assert_eq!(r, Err(Error::RegistryValueUnreadable));
}

#[test]
fn windows_access_flags() {
    assert_eq!(windows::access_flags(true, true), 0x20119);
    assert_eq!(windows::access_flags(true, false), 0x20019);
    assert_eq!(windows::access_flags(false, true), 0x20019);
    assert_eq!(windows::access_flags(false, false), 0x20019);
}

#[test]
fn illumos_hex_value() {
    assert_eq!(illumos::get_machine_id(0x1a2b), Ok("1a2b".to_string()));
}

#[test]
fn illumos_hex_zero() {
    assert_eq!(illumos::get_machine_id(0), Ok("0".to_string()));
}

#[test]
fn illumos_hex_all_ones() {
    assert_eq!(illumos::get_machine_id(u64::MAX), Ok("ffffffffffffffff".to_string()));
}

#[test]
fn illumos_hex_single_byte() {
    assert_eq!(illumos::get_machine_id(255), Ok("ff".to_string()));
}

#[test]
fn repeated_calls_agree() {
    let a = linux::get_machine_id(Some("abc123\n".to_string()), None);
    let b = linux::get_machine_id(Some("abc123\n".to_string()), None);
    assert_eq!(a, b);
    let c = macos::get_machine_id(Some(b"\"IOPlatformUUID\" = \"x\"\n".to_vec()));
    let d = macos::get_machine_id(Some(b"\"IOPlatformUUID\" = \"x\"\n".to_vec()));
    assert_eq!(c, d);
    let e = illumos::get_machine_id(77);
    let f = illumos::get_machine_id(77);
    assert_eq!(e, f);
}

#[test]
fn error_messages_distinct() {
    let variants = [
        Error::FileUnreadable,
        Error::ProcessSpawnFailed,
        Error::ProcessOutputUndecodable,
        Error::PatternNotFound,
        Error::RegistryKeyUnopenable,
        Error::RegistryValueUnreadable,
    ];
    for (i, a) in variants.iter().enumerate() {
        assert!(!a.message().is_empty());
        for (j, b) in variants.iter().enumerate() {
            if i != j {
                assert_ne!(a.message(), b.message());
            }
        }
    }
}
