//! What plugins recognise in bytes and names, apart from an image.

use memory_plugins::plugins::mac::psaux::python_bytes_repr_length;
use memory_plugins::plugins::windows::consoles::find_history;
use memory_plugins::plugins::windows::etwpatch::patched_opcode;
use memory_plugins::plugins::windows::getservicesids::{service_sid, sid_of_digest};

/// Build a buffer holding consecutive counted commands.
fn build_history(commands: &[&str]) -> Vec<u8> {
    let mut data = Vec::new();
    for command in commands {
        let units: Vec<u8> = command
            .encode_utf16()
            .flat_map(|unit| unit.to_le_bytes())
            .collect();
        data.extend_from_slice(&(units.len() as u16).to_le_bytes());
        data.extend_from_slice(&(units.len() as u16).to_le_bytes());
        data.extend_from_slice(&units);
    }
    data.extend_from_slice(&[0u8; 8]);
    data
}

#[test]
fn recovers_a_run_of_commands() {
    let data = build_history(&["whoami", "net user /add attacker"]);
    let found = find_history(&data);

    assert_eq!(found.len(), 1);
    assert_eq!(found[0].1, vec!["whoami", "net user /add attacker"]);
}

#[test]
fn a_single_plausible_string_is_not_a_history() {
    // One match is far too weak a signal to report on its own.
    let data = build_history(&["dir"]);
    assert!(find_history(&data).is_empty());
}

#[test]
fn binary_data_is_not_mistaken_for_commands() {
    let noise = vec![0x04, 0x00, 0x04, 0x00, 0x01, 0x00, 0x02, 0x00, 0, 0, 0, 0];
    assert!(find_history(&noise).is_empty());
}

#[test]
fn a_history_is_reported_where_it_starts() {
    let mut data = vec![0u8; 6];
    data.extend(build_history(&["cd \u{e9}t\u{e9}", "dir", "exit"]));
    let found = find_history(&data);
    assert_eq!(found.len(), 1);
    assert_eq!(found[0].0, 6);
    assert_eq!(found[0].1, vec!["cd \u{e9}t\u{e9}", "dir", "exit"]);
}

#[test]
fn recognises_the_common_patches() {
    assert_eq!(patched_opcode(&[0xC3, 0, 0, 0, 0, 0, 0, 0]), Some("ret".to_string()));
    assert_eq!(
        patched_opcode(&[0x33, 0xC0, 0xC3, 0, 0, 0, 0, 0]),
        Some("xor eax, eax; ret".to_string())
    );
    assert!(patched_opcode(&[0xE9, 0x11, 0x22, 0x33, 0x44, 0, 0, 0]).is_some());
}

#[test]
fn an_intact_prologue_is_not_a_finding() {
    // The usual `mov r10, rcx. Mov eax, imm32` system-call stub opening.
    assert!(patched_opcode(&[0x4C, 0x8B, 0xD1, 0xB8, 0x0F, 0x00, 0x00, 0x00]).is_none());
}

#[test]
fn a_return_says_how_much_it_takes_off_the_stack() {
    assert_eq!(patched_opcode(&[0xC2, 0x14, 0x00]), Some("ret 0x14".to_string()));
    assert_eq!(patched_opcode(&[0xC2, 0x14, 0x01, 0xFF]), Some("ret 0x114".to_string()));
    assert_eq!(patched_opcode(&[]), None);
}

#[test]
fn service_sids_are_derived_from_the_name() {
    let sid = service_sid("TrustedInstaller");
    // The well-known SID for TrustedInstaller, which Windows documents.
    assert_eq!(
        sid,
        "S-1-5-80-956008885-3418522649-1831038044-1853292631-2271478464"
    );
}

#[test]
fn the_name_is_hashed_case_insensitively() {
    assert_eq!(service_sid("trustedinstaller"), service_sid("TrustedInstaller"));
    // Letters beyond ASCII have an upper case too.
    assert_eq!(service_sid("caf\u{e9}"), service_sid("CAF\u{c9}"));
    assert_ne!(service_sid("TrustedInstaller"), service_sid("TrustedInstalled"));
}

#[test]
fn a_digest_is_read_as_five_numbers() {
    let mut digest = [0u8; 20];
    digest[0] = 1;
    digest[5] = 1;
    digest[19] = 0xff;
    assert_eq!(sid_of_digest(&digest), "S-1-5-80-1-256-0-0-4278190080");
}

#[test]
fn matches_pythons_representation_of_bytes() {
    // b'foo'
    assert_eq!(python_bytes_repr_length(b"foo"), 6);
    // b''
    assert_eq!(python_bytes_repr_length(b""), 3);
    // b'a\\x00b' is not reachable here, but a high byte is: b'\\xff'
    assert_eq!(python_bytes_repr_length(b"\xff"), 7);
    // b"it's" keeps the value unescaped by switching quotes
    assert_eq!(python_bytes_repr_length(b"it's"), 7);
    // b'say "hi"' keeps single quotes and leaves the double ones alone
    assert_eq!(python_bytes_repr_length(b"say \"hi\""), 11);
}

#[test]
fn pythons_escapes_are_counted() {
    // b'a\\b\t\n\r'
    assert_eq!(python_bytes_repr_length(b"a\\b\t\n\r"), 13);
    // b'"\'' escapes the single quote, because both kinds occur
    assert_eq!(python_bytes_repr_length(b"\"'"), 6);
    assert_eq!(python_bytes_repr_length(b"\x7f~"), 8);
}
