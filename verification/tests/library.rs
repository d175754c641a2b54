//! What plugins are built on: text, addresses, times, options and output.

use memory_plugins::addresses::{write_ipv4, write_ipv6, write_ipv6_bytes};
use memory_plugins::config::{ConfigValue, Configuration};
use memory_plugins::context::{Context, Layer, Region};
use memory_plugins::digest::hex_string;
use memory_plugins::lists::is_among;
use memory_plugins::plugins::output::{
    extract, free_extracted_name, output_path, set_output_directory, stem_of, Output,
};
use memory_plugins::plugins::timeline_helpers::{is_time, number, text};
use memory_plugins::plugins::tree::{arrange, Forest, Link, Siblings};
use memory_plugins::plugins::windows::memmap::MemMap;
use memory_plugins::plugins::{
    layer_data, Plugin, Requirement, RequirementKind, TimeKind, Timeline,
};
use memory_plugins::renderers::{AbsentValue, Column, Hint, Row, TreeGrid, Value};
use memory_plugins::symbols::mac::Mac;
use memory_plugins::symbols::security::Security;
use memory_plugins::symbols::windows::Windows;
use memory_plugins::text::{
    ascii_lower, comes_before, contains, decimal, encode_utf16, ends_with, hexadecimal,
    same_ignoring_case, signed_decimal, split, starts_with, trim_end, units_of, utf16,
};
use memory_plugins::time::{unixtime_value, wintime_value, DateTime};

fn context(regions: Vec<Region>) -> Context {
    Context {
        layers: vec![Layer {
            name: "base".to_string(),
            mask: u64::MAX,
            minimum: 0,
            maximum: u64::MAX,
            regions,
            kind: "Intel32e".to_string(),
            page_map: None,
            pae: false,
            below: Vec::new(),
        }],
        tables: Vec::new(),
        modules: Vec::new(),
        output: Output { directory: None, existing: Vec::new(), refused: Vec::new() },
        siblings: Vec::new(),
        windows: Windows {
            spaces: Vec::new(),
            cookie: None,
            type_names: Vec::new(),
            header_names: Vec::new(),
            sound_processes: Vec::new(),
            images: Vec::new(),
            pe_images: Vec::new(),
            read_exports: Vec::new(),
            stretches: Vec::new(),
            vads: Vec::new(),
            records: Vec::new(),
            installed: Vec::new(),
            published: Vec::new(),
            pool: None,
            code: None,
            hives: None,
            security: Security {
                tokens: Vec::new(),
                well_known: Vec::new(),
                services: Vec::new(),
                patterned: Vec::new(),
                known_services: Vec::new(),
                privileges: Vec::new(),
            },
            ordinals: String::new(),
            crashes: Vec::new(),
            builtin: Vec::new(),
        },
        mac: Mac {
            lists: Vec::new(),
            spaces: Vec::new(),
            descriptors: Vec::new(),
            maps: Vec::new(),
            resolver: None,
            descriptor_kinds: Vec::new(),
            addresses: Vec::new(),
            link_addresses: Vec::new(),
            paths: Vec::new(),
        },
    }
}

#[test]
fn numbers_are_written_out() {
    assert_eq!(decimal(0), "0");
    assert_eq!(decimal(u64::MAX), "18446744073709551615");
    assert_eq!(signed_decimal(i64::MIN), "-9223372036854775808");
    assert_eq!(signed_decimal(-1), "-1");
    assert_eq!(hexadecimal(0), "0x0");
    assert_eq!(hexadecimal(0xdeadbeef), "0xdeadbeef");
    assert_eq!(hex_string(&vec![0, 0x0f, 0xff]), "000fff");
}

#[test]
fn texts_are_compared_and_searched() {
    assert!(contains("abcd", "bc") && contains("a", "") && !contains("bc", "abc"));
    assert!(starts_with("abc", "ab") && !starts_with("abc", "b"));
    assert!(ends_with("abc", "bc") && !ends_with("abc", "ab"));
    assert_eq!(ascii_lower("ABC\u{c9}"), "abc\u{c9}");
    assert!(same_ignoring_case("NtDll.dll", "NTDLL.DLL"));
    assert!(comes_before("B", "a") && comes_before("a", "ab") && !comes_before("a", "a"));
    assert_eq!(split("a,,b", ','), vec!["a", "", "b"]);
    assert_eq!(split("", ','), vec![""]);
    assert_eq!(trim_end("a\0\0", '\0'), "a");
    assert!(is_among(&vec![1, 2], 2) && !is_among(&Vec::new(), 2));
}

#[test]
fn wide_characters_survive_a_round_trip() {
    for text in ["", "abc", "\u{e9}\u{1f600}", "\u{ffff}"] {
        assert_eq!(utf16(&encode_utf16(text)), text);
        let units: Vec<u16> = text.encode_utf16().collect();
        assert_eq!(encode_utf16(text), units);
    }
    // Half a pair cannot be decoded.
    assert_eq!(utf16(&[0xd83d]), "\u{fffd}");
    assert_eq!(units_of(&[1, 2, 3]), vec![0x0201]);
}

#[test]
fn addresses_are_written_the_way_the_c_library_writes_them() {
    assert_eq!(write_ipv4(127, 0, 0, 1), "127.0.0.1");
    for (groups, text) in [
        ([0u16, 0, 0, 0, 0, 0, 0, 0], "::"),
        ([0, 0, 0, 0, 0, 0, 0, 1], "::1"),
        ([0x2001, 0xdb8, 0, 0, 1, 0, 0, 1], "2001:db8::1:0:0:1"),
        ([1, 0, 2, 0, 0, 3, 0, 0], "1:0:2::3:0:0"),
        ([0xfe80, 0, 0, 0, 1, 2, 3, 4], "fe80::1:2:3:4"),
        ([1, 2, 3, 4, 5, 6, 7, 0], "1:2:3:4:5:6:7:0"),
        ([1, 2, 3, 4, 5, 6, 0, 0], "1:2:3:4:5:6::"),
        ([0, 0, 0, 0, 0, 0xffff, 0x0a00, 1], "::ffff:10.0.0.1"),
        ([0, 0, 0, 0, 0, 0, 0x7f00, 1], "::127.0.0.1"),
    ] {
        assert_eq!(write_ipv6(&groups.to_vec()), text);
        let bytes: Vec<u8> = groups.iter().flat_map(|group| group.to_be_bytes()).collect();
        assert_eq!(write_ipv6_bytes(&bytes), text);
    }
}

#[test]
fn moments_are_shown_in_utc() {
    assert_eq!(wintime_value(0).show(), "N/A");
    assert_eq!(wintime_value(10_000_000).show(), "1601-01-01 00:00:01+00:00");
    assert_eq!(wintime_value(132_223_104_000_000_000).show(), "2020-01-01 00:00:00+00:00");
    assert_eq!(wintime_value(u64::MAX).show(), "-");
    assert_eq!(unixtime_value(1).show(), "1970-01-01 00:00:01+00:00");
    assert_eq!(unixtime_value(0).show(), "-");
    assert_eq!(unixtime_value(-1).show(), "-");
}

#[test]
fn values_show_as_their_columns_ask() {
    assert_eq!(Value::integer(-5).show(), "-5");
    assert_eq!(Value::hex(255).show(), "0xff");
    assert_eq!(Value::uint(u64::MAX).show(), "18446744073709551615");
    assert_eq!(Value::Int(-1, Hint::Hexadecimal).show(), "0xffffffffffffffff");
    assert_eq!(Value::Bool(true).show(), "True");
    assert_eq!(Value::HexDump(vec![0, 0xab]).show(), "00 ab");
    assert_eq!(Value::not_applicable().show(), "N/A");
    for absent in [Value::not_available(), Value::unreadable(), Value::unparsable()] {
        assert_eq!(absent.show(), "-");
        assert!(absent.is_absent());
    }
    assert!(!Value::string("").is_absent());
}

#[test]
fn a_timeline_writes_values_plainly() {
    assert_eq!(number(&Value::hex(255)), "255");
    assert_eq!(number(&Value::integer(-3)), "-3");
    assert_eq!(number(&Value::not_available()), "N/A");
    assert_eq!(text(&Value::Absent(AbsentValue::Unparsable)), "-");
    assert_eq!(text(&Value::hex(255)), "0xff");
    assert!(is_time(&Value::DateTime(DateTime { seconds: 0, microseconds: 0 })));
    assert!(!is_time(&Value::LocalTime(DateTime { seconds: 0, microseconds: 0 })));
    let mut timeline = Timeline::default();
    timeline.push("first", TimeKind::Accessed, Value::integer(1));
    assert_eq!(timeline.entries.len(), 1);
    assert_eq!(timeline.entries[0].description, "first");
    assert!(!timeline.failed);
}

#[test]
fn requirements_are_optional_unless_they_are_not() {
    let plain = Requirement::new("name", "words", RequirementKind::Int);
    assert!(plain.optional && plain.default.is_none() && plain.architectures.is_none());
    let kernel = Requirement::kernel();
    assert!(!kernel.optional);
    assert_eq!(kernel.name, "kernel");
    assert!(matches!(kernel.kind, RequirementKind::Kernel));
    let limited = Requirement::new("n", "d", RequirementKind::TranslationLayer)
        .for_architectures(&["Intel32", "Intel64"])
        .with_default(ConfigValue::Int(3));
    assert_eq!(limited.architectures.map(|list| list.len()), Some(2));
    assert!(matches!(limited.default, Some(ConfigValue::Int(3))));
    for requirement in [Requirement::pid_filter("d"), Requirement::pids_filter("d")] {
        assert!(requirement.name.starts_with("pid"));
        match requirement.kind {
            RequirementKind::List(inner) => assert!(matches!(*inner, RequirementKind::Int)),
            _ => panic!("a filter is a list"),
        }
    }
}

#[test]
fn an_option_set_twice_has_its_second_value() {
    let mut config = Configuration::new();
    assert!(config.get("a").is_none());
    config.set("a", ConfigValue::Int(1));
    config.set("b", ConfigValue::Bool(true));
    config.set("a", ConfigValue::Int(2));
    assert_eq!(config.get_int("a"), Some(2));
    assert_eq!(config.get_bool("b"), Some(true));
    assert_eq!(config.get_string("a"), None);
    assert!(config.is_set("b") && !config.is_set("a"));
}

#[test]
fn recovered_files_keep_clear_of_each_other() {
    let taken = |names: &[&str]| -> Vec<String> {
        names.iter().map(|name| name.to_string()).collect()
    };
    assert_eq!(free_extracted_name("a.dmp", &Vec::new()), "a.dmp");
    assert_eq!(free_extracted_name("a.dmp", &taken(&["a.dmp"])), "a-1.dmp");
    assert_eq!(free_extracted_name("a.dmp", &taken(&["a-1.dmp", "a.dmp"])), "a-2.dmp");
    assert_eq!(free_extracted_name("a", &taken(&["a", "a-2"])), "a-1");
    assert_eq!(free_extracted_name("a.b.c", &taken(&["a.b.c"])), "a.b-1.c");
    assert_eq!(stem_of("a.b.c"), "a.b");
    assert_eq!(stem_of("abc"), "abc");
}

#[test]
fn output_goes_to_the_directory_it_is_sent_to() {
    let mut output = Output { directory: None, existing: Vec::new(), refused: Vec::new() };
    assert_eq!(output_path(&output, "a.dmp").directory, None);
    set_output_directory(&mut output, "/tmp/out");
    let path = output_path(&output, "a.dmp");
    assert_eq!((path.directory.as_deref(), path.name.as_str()), (Some("/tmp/out"), "a.dmp"));
    let mut grid = TreeGrid::new(vec![Column::integer("PID")]);
    assert_eq!(extract(&mut grid, &output, "a.dmp", vec![1]).as_deref(), Some("a.dmp"));
    assert_eq!(extract(&mut grid, &output, "a.dmp", vec![2]).as_deref(), Some("a-1.dmp"));
    output.refused.push("b".to_string());
    assert_eq!(extract(&mut grid, &output, "b", vec![3]), None);
    assert_eq!(grid.files.len(), 2);
    grid.push(0, Row::new().with(Value::integer(1)));
    assert_eq!(grid.lines.len(), 1);
}

#[test]
fn bytes_the_layer_does_not_hold_are_marked() {
    let region = |start: u64, bytes: &[u8]| Region {
        start,
        mapped: 0,
        below: 0,
        bytes: bytes.to_vec(),
    };
    let context = context(vec![region(0x1000, &[1, 2]), region(0x1004, &[5])]);
    match layer_data(&context, 0, 0x1000, 6) {
        Some(Value::LayerDump { missing, bytes }) => {
            assert_eq!(bytes, vec![1, 2, 0, 0, 5, 0]);
            assert_eq!(missing, vec![2, 3, 5]);
        }
        _ => panic!("nothing was read"),
    }
    match layer_data(&context, 0, 0x1000, 2) {
        Some(Value::LayerDump { missing, .. }) => assert!(missing.is_empty()),
        _ => panic!("nothing was read"),
    }
    assert!(layer_data(&context, 0, 0x1000, 0).is_none());
    assert!(layer_data(&context, 1, 0x1000, 2).is_none());
    assert!(MemMap.run(&context, &Configuration::new()).is_err());
}

#[test]
fn a_forest_shows_each_process_once() {
    let link = |parent: u64, child: u64| Link { parent, child };
    let none = Vec::new();
    let forest = Forest {
        listed: vec![1, 2, 3, 4],
        links: vec![link(1, 2), link(1, 3), link(3, 4), link(4, 1)],
        siblings: &none,
        ancestors: Vec::new(),
        filter: None,
    };
    assert_eq!(forest.walk(&vec![1, 3], true), vec![1, 2, 3, 4]);
    assert_eq!(forest.walk(&vec![4], true), vec![4, 1, 2, 3]);
    // What is neither an ancestor nor a descendant of a chosen process is left out.
    assert!(forest.walk(&vec![1], false).is_empty());
    let filtered = Forest { ancestors: vec![1, 3], filter: Some(vec![3]), ..forest };
    assert_eq!(filtered.walk(&vec![1], false), vec![1, 3, 4]);
    // Children come in the order they are handed over in.
    let given = vec![Siblings { parent: 1, order: vec![3, 2] }];
    let turned = Forest { siblings: &given, ancestors: Vec::new(), filter: None, ..filtered };
    assert_eq!(turned.walk(&vec![1], true), vec![1, 3, 4, 2]);
}

#[test]
fn children_are_those_found_in_any_order() {
    let given = vec![
        Siblings { parent: 7, order: vec![9, 3, 1, 3, 2] },
        Siblings { parent: 7, order: vec![1, 2, 3] },
    ];
    // What was not found is not there, and what has no place stands behind the rest.
    assert_eq!(arrange(&given, 7, &vec![1, 2, 3, 4]), vec![3, 1, 2, 4]);
    assert_eq!(arrange(&given, 8, &vec![4, 2]), vec![4, 2]);
    assert_eq!(arrange(&given, 7, &vec![2, 1, 3]), vec![3, 1, 2]);
}

#[test]
fn a_copy_of_a_requirement_says_the_same() {
    let choices = vec!["a".to_string(), "b".to_string()];
    let kind = RequirementKind::List(Box::new(RequirementKind::Choice(choices)));
    let list = ConfigValue::List(vec![
        ConfigValue::Str("a".to_string()),
        ConfigValue::Bytes(vec![1, 2]),
        ConfigValue::Bool(true),
    ]);
    let requirement = Requirement::new("name", "words", kind.clone()).required().with_default(list);
    let copy = requirement.clone();
    assert!(copy.kind == kind && kind != RequirementKind::Int);
    assert!(!copy.optional && copy.architectures.is_none());
    assert_eq!((copy.name.as_str(), copy.description.as_str()), ("name", "words"));
    assert_eq!(format!("{:?}", copy.default), format!("{:?}", requirement.default));
}
