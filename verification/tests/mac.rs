//! Mac plugins on a small image.

use memory_plugins::config::{ConfigValue, Configuration};
use memory_plugins::context::{
    Context, Layer, Member, Module, Object, Region, Shape, Symbol, SymbolTable, TypeDefinition,
    TypeId,
};
use memory_plugins::error::VolatilityError;
use memory_plugins::plugins::mac::bash::{read_stamp, Bash};
use memory_plugins::plugins::mac::check_syscall::CheckSyscall;
use memory_plugins::plugins::mac::check_sysctl::{permissions, CheckSysctl};
use memory_plugins::plugins::mac::check_trap_table::CheckTrapTable;
use memory_plugins::plugins::mac::dmesg::{split_lines, unroll, Dmesg};
use memory_plugins::plugins::mac::ifconfig::IfConfig;
use memory_plugins::plugins::mac::kauth_listeners::KauthListeners;
use memory_plugins::plugins::mac::kevents::{name_filter, parse_flags, Kevents};
use memory_plugins::plugins::mac::list_files::ListFiles;
use memory_plugins::plugins::mac::lsmod::Lsmod;
use memory_plugins::plugins::mac::lsof::Lsof;
use memory_plugins::plugins::mac::malfind::Malfind;
use memory_plugins::plugins::mac::mount::Mount;
use memory_plugins::plugins::mac::netstat::{name_state, swap_port, NetStat};
use memory_plugins::plugins::mac::proc_maps::Maps;
use memory_plugins::plugins::mac::psaux::PsAux;
use memory_plugins::plugins::mac::pslist::PsList;
use memory_plugins::plugins::mac::pstree::PsTree;
use memory_plugins::plugins::mac::socket_filters::SocketFilters;
use memory_plugins::plugins::mac::timers::Timers;
use memory_plugins::plugins::mac::trustedbsd::TrustedBsd;
use memory_plugins::plugins::mac::vfsevents::VfsEvents;
use memory_plugins::plugins::output::Output;
use memory_plugins::plugins::tree::Siblings;
use memory_plugins::plugins::Plugin;
use memory_plugins::renderers::TreeGrid;
use memory_plugins::symbols::mac::{
    Descriptor, Mac, MapEntry, Note, ProcessList, ProcessMap, ProcessSpace, Resolver,
};
use memory_plugins::symbols::security::Security;
use memory_plugins::symbols::windows::{CodeModule, NamedPlace, Windows};

const U8: usize = 0;
const U16: usize = 1;
const U32: usize = 2;
const U64: usize = 3;
const I64: usize = 4;
const CHARS: usize = 5;
const NAME: usize = 6;

const BASE: u64 = 0x1000;

struct Image {
    bytes: Vec<u8>,
    types: Vec<TypeDefinition>,
    symbols: Vec<Symbol>,
    mac: Mac,
}

fn integer(name: &str, size: u64, signed: bool) -> TypeDefinition {
    TypeDefinition { name: name.to_string(), size, shape: Shape::Integer { size, signed } }
}

impl Image {
    fn new() -> Image {
        Image {
            bytes: vec![0; 0x4000],
            types: vec![
                integer("unsigned char", 1, false),
                integer("unsigned short", 2, false),
                integer("unsigned int", 4, false),
                integer("unsigned long", 8, false),
                integer("long", 8, true),
                TypeDefinition {
                    name: "char *".to_string(),
                    size: 8,
                    shape: Shape::Pointer { size: 8, target: U8 },
                },
                TypeDefinition {
                    name: "name".to_string(),
                    size: 16,
                    shape: Shape::Text { length: 16 },
                },
            ],
            symbols: Vec::new(),
            mac: Mac {
                lists: Vec::new(),
                spaces: Vec::new(),
                descriptors: Vec::new(),
                maps: Vec::new(),
                resolver: None,
                descriptor_kinds: Vec::new(),
                addresses: Vec::new(),
                link_addresses: Vec::new(),
                paths: Vec::new(),
            },
        }
    }

    fn put(&mut self, at: u64, bytes: &[u8]) {
        let start = (at - BASE) as usize;
        self.bytes[start..start + bytes.len()].copy_from_slice(bytes);
    }

    fn word(&mut self, at: u64, value: u64) {
        self.put(at, &value.to_le_bytes());
    }

    fn define(&mut self, name: &str, size: u64, shape: Shape) -> usize {
        self.types.push(TypeDefinition { name: name.to_string(), size, shape });
        self.types.len() - 1
    }

    fn structure(&mut self, name: &str, size: u64, members: &[(&str, u64, usize)]) -> usize {
        let members = members
            .iter()
            .map(|(name, offset, kind)| Member {
                name: name.to_string(),
                offset: *offset,
                kind: *kind,
            })
            .collect();
        self.define(name, size, Shape::Structure(members))
    }

    fn pointer(&mut self, target: usize) -> usize {
        self.define("pointer", 8, Shape::Pointer { size: 8, target })
    }

    fn array(&mut self, element: usize, count: u64) -> usize {
        self.define("array", 0, Shape::Array { element, count })
    }

    fn symbol(&mut self, name: &str, address: u64, kind: usize) {
        self.symbols.push(Symbol { name: name.to_string(), address, kind: Some(kind) });
    }

    fn object(&self, kind: usize, offset: u64) -> Object {
        Object { kind: TypeId { table: 0, index: kind }, layer: 0, native: 0, offset }
    }

    /// A type of processes, and processes of it at some places.
    fn processes(&mut self, list: &[(u64, u32, u32, &str)]) -> usize {
        let time = self.structure("timeval", 16, &[("tv_sec", 0, I64), ("tv_usec", 8, U64)]);
        let kind = self.structure(
            "proc",
            0x80,
            &[
                ("p_pid", 0, U32),
                ("p_ppid", 4, U32),
                ("p_comm", 8, NAME),
                ("p_uid", 24, U32),
                ("p_gid", 28, U32),
                ("p_start", 32, time),
                ("user_stack", 48, U64),
                ("p_argslen", 56, U32),
                ("p_argc", 60, U32),
            ],
        );
        let mut processes = Vec::new();
        for (at, pid, ppid, name) in list {
            self.put(*at, &pid.to_le_bytes());
            self.put(*at + 4, &ppid.to_le_bytes());
            self.put(*at + 8, name.as_bytes());
            processes.push(self.object(kind, *at));
        }
        self.mac.lists.push(ProcessList { method: "tasks".to_string(), processes });
        kind
    }

    fn own_memory(&mut self, process: u64) {
        self.mac.spaces.push(ProcessSpace { process, layer: Some(0) });
    }

    fn code(&mut self, name: &str, start: u64, size: u64, symbol: &str, address: u64) {
        let module = |shift: u64| CodeModule {
            name: name.to_string(),
            start: start + shift,
            size,
            symbols: vec![NamedPlace { name: symbol.to_string(), address: address + shift }],
        };
        self.mac.resolver =
            Some(Resolver { shifted: vec![module(0)], unshifted: vec![module(0x10_0000)] });
    }

    fn context(self) -> Context {
        Context {
            layers: vec![Layer {
                name: "primary".to_string(),
                mask: u64::MAX,
                minimum: 0,
                maximum: u64::MAX,
                regions: vec![Region { start: BASE, mapped: 0, below: 0, bytes: self.bytes }],
                kind: "Intel32e".to_string(),
                page_map: None,
                pae: false,
                below: Vec::new(),
            }],
            tables: vec![SymbolTable {
                name: "mac".to_string(),
                pointer_size: 8,
                source: None,
                types: self.types,
                symbols: self.symbols,
            }],
            modules: vec![Module {
                name: "kernel".to_string(),
                table: 0,
                layer: 0,
                offset: 0,
                absolute: true,
            }],
            output: Output { directory: None, existing: Vec::new(), refused: Vec::new() },
            siblings: Vec::new(),
            windows: Windows {
                spaces: Vec::new(),
                cookie: None,
                type_names: Vec::new(),
                header_names: Vec::new(),
                sound_processes: Vec::new(),
                images: Vec::new(),
                pe_images: Vec::new(),
                read_exports: Vec::new(),
                stretches: Vec::new(),
                vads: Vec::new(),
                records: Vec::new(),
                installed: Vec::new(),
                published: Vec::new(),
                pool: None,
                code: None,
                hives: None,
                security: Security {
                    tokens: Vec::new(),
                    well_known: Vec::new(),
                    services: Vec::new(),
                    patterned: Vec::new(),
                    known_services: Vec::new(),
                    privileges: Vec::new(),
                },
                ordinals: String::new(),
                crashes: Vec::new(),
                builtin: Vec::new(),
            },
            mac: self.mac,
        }
    }
}

fn shown(grid: &TreeGrid) -> Vec<Vec<String>> {
    grid.lines
        .iter()
        .map(|line| line.row.values.iter().map(|value| value.show()).collect())
        .collect()
}

fn report<P: Plugin>(plugin: P, image: Image) -> Vec<Vec<String>> {
    shown(&plugin.run(&image.context(), &Configuration::new()).unwrap())
}

fn is_unavailable<P: Plugin>(plugin: P, image: Image) -> bool {
    matches!(
        plugin.run(&image.context(), &Configuration::new()),
        Err(VolatilityError::Unavailable)
    )
}

fn two_processes() -> Image {
    let mut image = Image::new();
    image.processes(&[(0x1100, 1, 0, "launchd"), (0x1200, 60, 1, "sshd")]);
    image
}

#[test]
fn a_plugin_without_a_kernel_says_what_is_missing() {
    let mut context = two_processes().context();
    context.modules.clear();
    match PsList.run(&context, &Configuration::new()) {
        Err(VolatilityError::Other(words)) => {
            assert!(words.starts_with("No kernel symbols are loaded for this image. Mac"));
            assert!(words.ends_with("--symbol-dirs."));
        }
        _ => panic!("a report without a kernel"),
    }
}

#[test]
fn processes_are_listed() {
    let mut image = two_processes();
    image.put(0x1200 + 24, &501u32.to_le_bytes());
    image.put(0x1200 + 28, &20u32.to_le_bytes());
    image.word(0x1200 + 32, 86_400);
    let rows = report(PsList, image);
    assert_eq!(rows.len(), 2);
    assert_eq!(
        rows[1],
        vec!["0x1200", "sshd", "60", "501", "20", "1970-01-02 00:00:00+00:00", "1"]
    );
}

#[test]
fn a_process_list_that_cannot_be_walked_is_unavailable() {
    assert!(is_unavailable(PsList, Image::new()));
    let mut config = Configuration::new();
    config.set("pslist_method", ConfigValue::Str("allproc".to_string()));
    assert!(PsList.run(&two_processes().context(), &config).is_err());
    config.set("pslist_method", ConfigValue::Str("tasks".to_string()));
    assert!(PsList.run(&two_processes().context(), &config).is_ok());
}

#[test]
fn a_filter_selects_processes() {
    let mut config = Configuration::new();
    config.set("pid", ConfigValue::List(vec![ConfigValue::Int(60)]));
    let rows = shown(&PsList.run(&two_processes().context(), &config).unwrap());
    assert_eq!(rows.len(), 1);
    assert_eq!(rows[0][1], "sshd");
}

#[test]
fn children_nest_under_their_parents() {
    let mut image = Image::new();
    image.processes(&[
        (0x1100, 1, 9, "launchd"),
        (0x1200, 60, 1, "sshd"),
        (0x1300, 70, 60, "sh"),
        (0x1400, 80, 1, "syslogd"),
    ]);
    let context = image.context();
    let grid = PsTree.run(&context, &Configuration::new()).unwrap();
    let depths: Vec<usize> = grid.lines.iter().map(|line| line.depth).collect();
    let rows = shown(&grid);
    assert_eq!(depths, vec![0, 1, 2, 1]);
    assert_eq!(rows[0], vec!["1", "9", "launchd"]);
    assert_eq!(rows[2], vec!["70", "60", "sh"]);
    assert_eq!(rows[3], vec!["80", "1", "syslogd"]);
    let mut context = context;
    context.siblings.push(Siblings { parent: 1, order: vec![80, 60] });
    let rows = shown(&PsTree.run(&context, &Configuration::new()).unwrap());
    let names: Vec<&str> = rows.iter().map(|row| row[2].as_str()).collect();
    assert_eq!(names, vec!["launchd", "syslogd", "sshd", "sh"]);
}

#[test]
fn extensions_are_followed_until_they_come_back() {
    let mut image = Image::new();
    let kind = image.structure(
        "kmod_info",
        40,
        &[("next", 0, U64), ("name", 8, NAME), ("size", 24, U64)],
    );
    let pointer = image.pointer(kind);
    image.symbol("kmod", 0x1100, pointer);
    image.word(0x1100, 0x1200);
    image.word(0x1200, 0x1300);
    image.put(0x1208, b"com.apple.a");
    image.word(0x1218, 4096);
    image.word(0x1300, 0x1200);
    image.put(0x1308, b"com.apple.b");
    assert_eq!(
        report(Lsmod, image),
        vec![
            vec!["0x1200", "com.apple.a", "4096"],
            vec!["0x1300", "com.apple.b", "0"],
        ]
    );
    assert!(is_unavailable(Lsmod, Image::new()));
}

fn tail_queue(image: &mut Image) -> (usize, usize) {
    let head = image.structure("head", 8, &[("tqh_first", 0, U64)]);
    let link = image.structure("link", 8, &[("tqe_next", 0, U64)]);
    (head, link)
}

#[test]
fn mounted_file_systems_are_listed() {
    let mut image = Image::new();
    let (head, link) = tail_queue(&mut image);
    let statistics = image.structure(
        "vfsstatfs",
        48,
        &[("f_mntonname", 0, NAME), ("f_mntfromname", 16, NAME), ("f_fstypename", 32, NAME)],
    );
    image.structure("mount", 56, &[("mnt_list", 0, link), ("mnt_vfsstat", 8, statistics)]);
    image.symbol("mountlist", 0x1100, head);
    image.word(0x1100, 0x1200);
    image.put(0x1208, b"/");
    image.put(0x1218, b"/dev/disk1");
    image.put(0x1228, b"hfs");
    assert_eq!(report(Mount, image), vec![vec!["/", "/dev/disk1", "hfs"]]);
}

#[test]
fn open_files_with_a_path_are_listed() {
    let mut image = two_processes();
    let file = image.object(U64, 0);
    for (number, path) in [(0, Some("/dev/null")), (1, None), (2, Some("")), (3, Some("/a"))] {
        image.mac.descriptors.push(Descriptor {
            process: 0x1200,
            file,
            path: path.map(|path| path.to_string()),
            number,
        });
    }
    assert_eq!(
        report(Lsof, image),
        vec![vec!["60", "0", "/dev/null"], vec!["60", "3", "/a"]]
    );
}

#[test]
fn arguments_are_read_off_the_stack() {
    let mut image = two_processes();
    image.own_memory(0x1200);
    // The walk goes on behind the representation of an argument, three characters
    // of which are quotes and a prefix.
    image.word(0x1200 + 48, 0x2100);
    image.put(0x1200 + 56, &0x100u32.to_le_bytes());
    image.put(0x1200 + 60, &2u32.to_le_bytes());
    image.put(0x2000, b"/bin/sh\0");
    image.put(0x2010, b"/bin/sh\0");
    image.put(0x201b, b"-c\0");
    assert_eq!(report(PsAux, image), vec![vec!["60", "sshd", "2", "/bin/sh -c"]]);
}

#[test]
fn a_process_with_too_many_arguments_is_not_believed() {
    let mut image = two_processes();
    image.own_memory(0x1200);
    image.word(0x1200 + 48, 0x2100);
    image.put(0x1200 + 56, &0x100u32.to_le_bytes());
    image.put(0x1200 + 60, &1024u32.to_le_bytes());
    assert!(report(PsAux, image).is_empty());
}

#[test]
fn interfaces_carry_several_addresses() {
    let mut image = Image::new();
    let (head, link) = tail_queue(&mut image);
    let sockaddr = image.structure("sockaddr", 16, &[]);
    image.structure("sockaddr_dl", 16, &[]);
    let to_sockaddr = image.pointer(sockaddr);
    let entry = image.structure("ifaddr", 16, &[("ifa_link", 0, link), ("ifa_addr", 8, to_sockaddr)]);
    let to_entry = image.pointer(entry);
    let entries = image.structure("entries", 8, &[("tqh_first", 0, to_entry)]);
    image.structure(
        "ifnet",
        40,
        &[
            ("if_link", 0, link),
            ("if_name", 8, CHARS),
            ("if_unit", 16, U32),
            ("if_flags", 20, U16),
            ("if_addrhead", 24, entries),
        ],
    );
    image.symbol("dlil_ifnet_head", 0x1100, head);
    image.word(0x1100, 0x1200);
    image.word(0x1208, 0x1300);
    image.put(0x1300, b"en");
    image.put(0x1214, &0x8943u16.to_le_bytes());
    image.word(0x1218, 0x1400);
    image.word(0x1400, 0x1440);
    image.word(0x1408, 0x1500);
    image.word(0x1448, 0x1520);
    image.mac.addresses.push(Note { at: 0x1520, text: "10.0.0.7".to_string() });
    image.mac.link_addresses.push(Note { at: 0x1500, text: "ac:de:48:00:11:22".to_string() });
    assert_eq!(
        report(IfConfig, image),
        vec![
            vec!["en0", "", "ac:de:48:00:11:22", "True"],
            vec!["en0", "10.0.0.7", "ac:de:48:00:11:22", "True"],
        ]
    );
}

#[test]
fn a_missing_interface_list_is_said() {
    match IfConfig.run(&Image::new().context(), &Configuration::new()) {
        Err(VolatilityError::Other(words)) => assert_eq!(
            words,
            "Could not find the interface list; the kernel symbols may not match"
        ),
        _ => panic!("a report without interfaces"),
    }
}

#[test]
fn handlers_are_attributed_to_code() {
    for (symbol, member, title) in
        [("sysent", "sy_call", "SysCall"), ("mach_trap_table", "mach_trap_function", "TrapTable")]
    {
        let mut image = Image::new();
        let entry = image.structure("entry", 16, &[(member, 8, U64)]);
        let table = image.array(entry, 3);
        image.symbol(symbol, 0x1100, table);
        image.word(0x1108, 0x9010);
        image.word(0x1128, 0xdead);
        image.code("com.apple.kernel", 0x9000, 0x100, "handler", 0x9010);
        let rows =
            if title == "SysCall" { report(CheckSyscall, image) } else { report(CheckTrapTable, image) };
        assert_eq!(
            rows,
            vec![
                vec!["0x1100", title, "0", "0x9010", "com.apple.kernel", "handler"],
                vec!["0x1100", title, "2", "0xdead", "UNKNOWN", "N/A"],
            ]
        );
    }
    assert!(is_unavailable(CheckSyscall, Image::new()));
    assert!(is_unavailable(CheckTrapTable, Image::new()));
}

#[test]
fn policies_are_reported_hook_by_hook() {
    let mut image = Image::new();
    let operations =
        image.structure("mac_policy_ops", 16, &[("mpo_first", 0, U64), ("mpo_second", 8, U64)]);
    let to_operations = image.pointer(operations);
    let policy =
        image.structure("mac_policy_conf", 16, &[("mpc_name", 0, CHARS), ("mpc_ops", 8, to_operations)]);
    let to_policy = image.pointer(policy);
    image.structure("mac_policy_list_element", 8, &[("mpc", 0, to_policy)]);
    let list = image.structure("mac_policy_list", 16, &[("staticmax", 0, U32), ("entries", 8, U64)]);
    image.symbol("mac_policy_list", 0x1100, list);
    // One slot more than the highest index.
    image.word(0x1100, 0);
    image.word(0x1108, 0x1200);
    image.word(0x1200, 0x1300);
    image.word(0x1300, 0x1400);
    image.word(0x1308, 0x1500);
    image.put(0x1400, b"Sandbox");
    image.word(0x1508, 0x77);
    assert_eq!(
        report(TrustedBsd, image),
        vec![vec!["mpo_second", "Sandbox", "0x77", "UNKNOWN", "N/A"]]
    );
    assert!(is_unavailable(TrustedBsd, Image::new()));
}

#[test]
fn pending_timers_are_listed() {
    let mut image = Image::new();
    let head = image.structure("queue", 8, &[("next", 0, U64)]);
    let queue = image.structure("mpqueue", 8, &[("head", 0, head)]);
    let timer = image.structure("rtclock_timer", 8, &[("queue", 0, queue)]);
    image.structure("cpu_data", 0x40, &[("rtclock_timer", 0, timer)]);
    image.structure(
        "call_entry",
        40,
        &[
            ("q_link", 0, head),
            ("func", 8, U64),
            ("param0", 16, U64),
            ("param1", 24, U64),
            ("deadline", 32, I64),
        ],
    );
    image.symbol("real_ncpus", 0x1100, U32);
    image.put(0x1100, &1u32.to_le_bytes());
    image.symbol("cpu_data_ptr", 0x1108, U64);
    image.word(0x1108, 0x1200);
    image.word(0x1200, 0x1300);
    image.word(0x1300, 0x1200);
    image.word(0x1308, 0x9010);
    image.word(0x1310, 1);
    image.word(0x1318, 2);
    image.word(0x1320, 3);
    image.code("ext", 0x9000, 0x100, "tick", 0x9010);
    assert_eq!(
        report(Timers, image),
        vec![vec!["0x9010", "0x1", "0x2", "3", "-1", "ext", "tick"]]
    );
    assert!(is_unavailable(Timers, Image::new()));
}

#[test]
fn listeners_with_a_callback_are_listed() {
    let mut image = Image::new();
    let (head, link) = tail_queue(&mut image);
    let listener = image.structure("listener", 16, &[("kll_callback", 0, U64), ("kll_idata", 8, U64)]);
    let listeners = image.array(listener, 2);
    image.structure(
        "kauth_scope",
        48,
        &[("ks_link", 0, link), ("ks_identifier", 8, CHARS), ("ks_listeners", 16, listeners)],
    );
    image.symbol("kauth_scopes", 0x1100, head);
    image.word(0x1100, 0x1200);
    image.word(0x1208, 0x1300);
    image.put(0x1300, b"com.apple.kauth.generic");
    image.word(0x1220, 0x55);
    image.word(0x1228, 0x66);
    assert_eq!(
        report(KauthListeners, image),
        vec![vec!["com.apple.kauth.generic", "0x66", "0x55", "UNKNOWN", "N/A"]]
    );
    assert!(is_unavailable(KauthListeners, Image::new()));
}

#[test]
fn watchers_say_what_they_listen_for() {
    let mut image = Image::new();
    let watcher = image.structure(
        "fs_event_watcher",
        32,
        &[("event_list", 0, U64), ("proc_name", 8, NAME), ("pid", 24, I64)],
    );
    let pointer = image.pointer(watcher);
    let table = image.array(pointer, 3);
    image.symbol("watcher_table", 0x1100, table);
    image.word(0x1108, 0x1200);
    image.word(0x1110, 0x1300);
    for (at, list) in [(0x1200, 0x1400), (0x1300, 0x1420)] {
        image.word(at, list);
        image.put(at + 8, b"mds");
        image.word(at + 24, 61);
    }
    // The second watcher listens for nothing.
    image.put(0x1400, &[1, 0, 0, 1, 2]);
    image.put(0x140c, &[1]);
    assert_eq!(
        report(VfsEvents, image),
        vec![vec!["mds", "61", "CREATE_FILE,RENAME,DOCID_CHANGED"]]
    );
    assert!(is_unavailable(VfsEvents, Image::new()));
}

fn sysctl_image() -> Image {
    let mut image = Image::new();
    let head = image.structure("sysctl_oid_list", 8, &[("slh_first", 0, U64)]);
    let link = image.structure("oid_link", 8, &[("sle_next", 0, U64)]);
    image.structure(
        "sysctl_oid",
        64,
        &[
            ("oid_link", 0, link),
            ("oid_number", 8, I64),
            ("oid_kind", 16, U32),
            ("oid_arg1", 24, CHARS),
            ("oid_name", 32, CHARS),
            ("oid_handler", 40, U64),
        ],
    );
    image.symbol("sysctl__children", 0x1100, head);
    image
}

fn knob(image: &mut Image, at: u64, next: u64, kind: u32, argument: u64, name: &str, handler: u64) {
    image.word(at, next);
    image.put(at + 16, &kind.to_le_bytes());
    image.word(at + 24, argument);
    image.word(at + 32, at + 0x40);
    image.word(at + 40, handler);
    image.put(at + 0x40, name.as_bytes());
}

#[test]
fn knobs_are_walked_with_the_lists_below_them() {
    let mut image = sysctl_image();
    image.word(0x1100, 0x1200);
    // A node without a handler, whose list starts at its second member.
    knob(&mut image, 0x1200, 0x1300, 0x8000_0001, 0x1180, "kern", 0);
    image.word(0x1180, 0x1400);
    knob(&mut image, 0x1400, 0x1500, 2, 0x1190, "skipped", 1);
    knob(&mut image, 0x1500, 0, 0xc080_0002, 0x1190, "maxproc", 1);
    image.put(0x1190, &(-5i32).to_le_bytes());
    knob(&mut image, 0x1300, 0x1600, 3, 0x11a0, "version", 1);
    image.put(0x11a0, b"Darwin");
    knob(&mut image, 0x1600, 0x1200, 0, 0, "hostname", 1);
    image.symbol("hostname", 0x11c0, NAME);
    image.put(0x11c0, b"mini");
    let rows = report(CheckSysctl, image);
    let said: Vec<(&str, &str, &str)> = rows
        .iter()
        .map(|row| (row[0].as_str(), row[2].as_str(), row[4].as_str()))
        .collect();
    assert_eq!(
        said,
        vec![
            ("maxproc", "RWL", "-5"),
            ("kern", "R--", "Node"),
            ("version", "---", "Darwin"),
            ("hostname", "---", "mini"),
        ]
    );
    assert!(is_unavailable(CheckSysctl, Image::new()));
}

#[test]
fn a_knob_whose_value_is_gone_reads_minus_one() {
    let mut image = sysctl_image();
    image.word(0x1100, 0x1200);
    knob(&mut image, 0x1200, 0x1300, 5, 0xffff_0000, "lost", 1);
    // An entry without a name ends the list.
    knob(&mut image, 0x1300, 0x1400, 2, 0, "", 1);
    knob(&mut image, 0x1400, 0, 2, 0, "behind", 1);
    let rows = report(CheckSysctl, image);
    assert_eq!(rows.len(), 1);
    assert_eq!(rows[0][4], "-1");
}

#[test]
fn permissions_are_three_characters() {
    assert_eq!(permissions(0), "---");
    assert_eq!(permissions(0x8000_0000), "R--");
    assert_eq!(permissions(0xc080_0000), "RWL");
}

#[test]
fn files_are_named_by_the_directories_above_them() {
    let mut image = Image::new();
    let (head, link) = tail_queue(&mut image);
    let vnode = image.structure(
        "vnode",
        48,
        &[("v_mntvnodes", 0, link), ("v_flag", 8, U32), ("v_name", 16, CHARS), ("v_parent", 24, CHARS)],
    );
    // The link and the parent lead to vnodes.
    let pointer = image.pointer(vnode);
    for (name, member, kind) in [("link", 0usize, pointer), ("vnode", 3, pointer)] {
        let at = image.types.iter().position(|kind| kind.name == name).unwrap();
        if let Shape::Structure(members) = &mut image.types[at].shape {
            members[member].kind = kind;
        }
    }
    image.structure("mount", 24, &[("mnt_list", 0, link), ("mnt_vnodelist", 8, head)]);
    image.symbol("mountlist", 0x1100, head);
    image.word(0x1100, 0x1200);
    image.word(0x1208, 0x1300);
    for (at, parent, name) in
        [(0x1300, 0x1400, "passwd"), (0x1400, 0x1500, "etc"), (0x1500, 0x4fff_0000, "")]
    {
        image.word(at + 16, at + 0x40);
        image.word(at + 24, parent);
        image.put(at + 0x40, name.as_bytes());
    }
    // The root of a filesystem is named by its whole path.
    image.put(0x1508, &1u32.to_le_bytes());
    image.mac.paths.push(Note { at: 0x1500, text: "/".to_string() });
    assert_eq!(
        report(ListFiles, image),
        vec![
            vec!["0x1300", "/etc/passwd"],
            vec!["0x1400", "/etc"],
            vec!["0x1500", "/"],
        ]
    );
    assert!(is_unavailable(ListFiles, Image::new()));
}

fn socket_image(family: u32, protocol: u32) -> Image {
    let mut image = two_processes();
    let domain = image.structure("domain", 8, &[("dom_family", 0, U32)]);
    let to_domain = image.pointer(domain);
    let proto = image.structure("protosw", 16, &[("pr_domain", 0, to_domain), ("pr_protocol", 8, U32)]);
    let to_proto = image.pointer(proto);
    image.structure("socket", 16, &[("so_proto", 0, to_proto), ("so_pcb", 8, U64)]);
    let glob = image.structure("fileglob", 8, &[("fg_data", 0, U64)]);
    let to_glob = image.pointer(glob);
    let file = image.structure("fileproc", 8, &[("f_fglob", 0, to_glob)]);
    let file = image.object(file, 0x1800);
    image.word(0x1800, 0x1810);
    image.word(0x1810, 0x1820);
    image.word(0x1820, 0x1840);
    image.word(0x1828, 0x1900);
    image.word(0x1840, 0x1850);
    image.put(0x1848, &protocol.to_le_bytes());
    image.put(0x1850, &family.to_le_bytes());
    image.mac.descriptor_kinds.push(Note { at: 0x1810, text: "SOCKET".to_string() });
    image.mac.descriptors.push(Descriptor { process: 0x1200, file, path: None, number: 5 });
    image
}

#[test]
fn connections_are_reported_beside_their_process() {
    let mut image = socket_image(2, 6);
    let four = image.structure("in_addr", 4, &[("s_addr", 0, U32)]);
    let four = image.structure("in_addr_4in6", 4, &[("ia46_addr4", 0, four)]);
    let local = image.structure("local", 4, &[("inp46_local", 0, four)]);
    let remote = image.structure("remote", 4, &[("inp46_foreign", 0, four)]);
    image.structure(
        "inpcb",
        32,
        &[
            ("inp_dependladdr", 0, local),
            ("inp_dependfaddr", 4, remote),
            ("inp_lport", 8, U16),
            ("inp_fport", 10, U16),
            ("inp_ppcb", 16, U64),
        ],
    );
    image.structure("tcpcb", 8, &[("t_state", 0, U32)]);
    image.put(0x1900, &[10, 0, 0, 1, 192, 168, 1, 2, 0, 22, 0x30, 0x39]);
    image.word(0x1910, 0x1980);
    image.put(0x1980, &4u32.to_le_bytes());
    assert_eq!(
        report(NetStat, image),
        vec![vec![
            "0x1820", "TCP", "10.0.0.1", "22", "192.168.1.2", "12345", "ESTABLISHED", "sshd/60",
        ]]
    );
}

#[test]
fn addresses_of_both_versions_are_read() {
    let mut image = socket_image(30, 17);
    let words = image.structure("words", 16, &[("__u6_addr32", 0, U32)]);
    let six = image.structure("in6_addr", 16, &[("__u6_addr", 0, words)]);
    let local = image.structure("local", 16, &[("inp6_local", 0, six)]);
    let remote = image.structure("remote", 16, &[("inp6_foreign", 0, six)]);
    image.structure(
        "inpcb",
        48,
        &[
            ("inp_dependladdr", 0, local),
            ("inp_dependfaddr", 16, remote),
            ("inp_lport", 32, U16),
            ("inp_fport", 34, U16),
        ],
    );
    image.put(0x190f, &[1]);
    image.put(0x1920, &[0, 53]);
    let rows = report(NetStat, image);
    assert_eq!(
        rows,
        vec![vec!["0x1820", "UDP", "::1", "53", "::", "0", "", "sshd/60"]]
    );
}

#[test]
fn local_sockets_are_named_by_their_path() {
    let mut image = socket_image(1, 0);
    let address = image.structure("sockaddr_un", 16, &[("sun_path", 0, NAME)]);
    let to_address = image.pointer(address);
    image.structure("unpcb", 8, &[("unp_addr", 0, to_address)]);
    image.word(0x1900, 0x1940);
    image.put(0x1940, b"/var/run/s");
    assert_eq!(
        report(NetStat, image),
        vec![vec!["0x1820", "UNIX", "/var/run/s", "0", "", "0", "", "sshd/60"]]
    );
    // Other families have nothing to report.
    assert!(report(NetStat, socket_image(18, 0)).is_empty());
}

#[test]
fn ports_are_held_as_they_travel() {
    assert_eq!(swap_port(0x1600), 22);
    assert_eq!(swap_port(22), 0x1600);
    for port in [0, 1, 255, 256, 8080, 65535] {
        assert_eq!(swap_port(swap_port(port)), port);
    }
}

#[test]
fn connection_states_have_names() {
    assert_eq!(name_state(Some(1)), "LISTEN");
    assert_eq!(name_state(Some(10)), "TIME_WAIT");
    assert_eq!(name_state(Some(0)), "");
    assert_eq!(name_state(Some(11)), "");
    assert_eq!(name_state(None), "");
}

#[test]
fn filters_report_the_callbacks_they_install() {
    let mut image = Image::new();
    let (head, link) = tail_queue(&mut image);
    let callbacks =
        image.structure("sflt_filter", 24, &[("sf_name", 0, CHARS), ("sf_attach", 8, U64), ("sf_bind", 16, U64)]);
    image.structure("socket_filter", 40, &[("sf_global_next", 0, link), ("sf_filter", 8, callbacks)]);
    image.symbol("sock_filter_head", 0x1100, head);
    image.word(0x1100, 0x1200);
    image.word(0x1208, 0x1300);
    image.put(0x1300, b"firewall");
    image.word(0x1218, 0x10_9010);
    // The handler is described where the code would stand had the kernel not moved.
    image.code("fw", 0x9000, 0x100, "bind", 0x9010);
    assert_eq!(
        report(SocketFilters, image),
        vec![vec!["0x1208", "firewall", "sf_bind", "0x0", "0x109010", "fw", "bind"]]
    );
    assert!(is_unavailable(SocketFilters, Image::new()));
}

#[test]
fn the_message_buffer_is_unrolled() {
    let mut image = Image::new();
    let buffer = image.structure(
        "msgbuf",
        24,
        &[("msg_size", 0, U32), ("msg_bufx", 4, U32), ("msg_bufc", 8, CHARS)],
    );
    let pointer = image.pointer(buffer);
    image.symbol("msgbufp", 0x1100, pointer);
    image.word(0x1100, 0x1200);
    image.put(0x1200, &12u32.to_le_bytes());
    image.put(0x1204, &4u32.to_le_bytes());
    image.word(0x1208, 0x1300);
    image.put(0x1300, b"new\nold\nolde");
    assert_eq!(report(Dmesg, image), vec![vec!["old"], vec!["oldenew"]]);
    assert!(is_unavailable(Dmesg, Image::new()));
}

#[test]
fn a_buffer_written_past_its_end_starts_over() {
    assert_eq!(unroll("abcd", 2, 4), "cdab");
    assert_eq!(unroll("abcd", 5, 4), "abcd");
    assert_eq!(unroll("abcd", 9, 20), "abcd");
    assert_eq!(unroll("", 0, 0), "");
}

#[test]
fn lines_break_where_python_breaks_them() {
    assert_eq!(split_lines("a\nb\r\nc\rd"), vec!["a", "b", "c", "d"]);
    assert_eq!(split_lines("a\n"), vec!["a"]);
    assert_eq!(split_lines("\n\na"), vec!["", "", "a"]);
    assert_eq!(split_lines("x\u{85}y\u{2028}z\u{b}"), vec!["x", "y", "z"]);
    assert!(split_lines("").is_empty());
}

fn heap_image(stamp: &str) -> Image {
    let mut image = Image::new();
    image.processes(&[(0x1100, 70, 1, "bash"), (0x1180, 71, 1, "zsh")]);
    image.own_memory(0x1100);
    image.mac.maps.push(ProcessMap {
        process: 0x1100,
        entries: vec![MapEntry {
            start: Some(0x2000),
            end: Some(0x3000),
            protection: "rw-".to_string(),
            path: String::new(),
            special: "[heap]".to_string(),
        }],
    });
    for (at, text, stamp) in [(0x2000, "second", stamp), (0x2100, "first", "#1500000000")] {
        image.word(at, at + 0x40);
        image.word(at + 8, at + 0x60);
        image.put(at + 0x40, text.as_bytes());
        image.put(at + 0x60, stamp.as_bytes());
    }
    image
}

fn with_bash(image: Image) -> Context {
    let mut context = image.context();
    context.tables.push(SymbolTable {
        name: "bash64".to_string(),
        pointer_size: 8,
        source: None,
        types: vec![
            integer("unsigned char", 1, false),
            TypeDefinition {
                name: "char *".to_string(),
                size: 8,
                shape: Shape::Pointer { size: 8, target: 0 },
            },
            TypeDefinition {
                name: "hist_entry".to_string(),
                size: 16,
                shape: Shape::Structure(vec![
                    Member { name: "line".to_string(), offset: 0, kind: 1 },
                    Member { name: "timestamp".to_string(), offset: 8, kind: 1 },
                ]),
            },
        ],
        symbols: Vec::new(),
    });
    context
}

#[test]
fn a_history_is_in_the_order_it_was_typed() {
    let grid = Bash
        .run(&with_bash(heap_image("#1500000001")), &Configuration::new())
        .unwrap();
    assert_eq!(
        shown(&grid),
        vec![
            vec!["70", "bash", "2017-07-14 02:40:00+00:00", "first"],
            vec!["70", "bash", "2017-07-14 02:40:01+00:00", "second"],
        ]
    );
}

#[test]
fn a_history_needs_its_symbols_and_its_memory() {
    match Bash.run(&heap_image("#1500000001").context(), &Configuration::new()) {
        Err(VolatilityError::Other(words)) => {
            assert!(words.starts_with("Could not find the bundled 'bash64' symbol file"))
        }
        _ => panic!("a history without symbols"),
    }
    let mut image = heap_image("#1500000001");
    image.mac.spaces.clear();
    assert!(Bash.run(&with_bash(image), &Configuration::new()).is_err());
    let mut image = heap_image("#1500000001");
    image.mac.spaces[0].layer = None;
    let grid = Bash.run(&with_bash(image), &Configuration::new()).unwrap();
    assert!(grid.lines.is_empty());
}

#[test]
fn a_stamp_is_a_mark_and_digits() {
    assert_eq!(read_stamp("#1500000000"), Some(1_500_000_000));
    assert_eq!(read_stamp("#9223372036854775807"), Some(i64::MAX));
    assert_eq!(read_stamp("#9223372036854775808"), None);
    assert_eq!(read_stamp("#150000000"), None);
    assert_eq!(read_stamp("#-150000000"), None);
    assert_eq!(read_stamp("1500000000"), None);
    assert_eq!(read_stamp("#150000000x"), None);
    assert_eq!(read_stamp(""), None);
}

#[test]
fn registrations_are_collected_from_every_table() {
    let mut image = Image::new();
    let event = image.structure("kevent", 16, &[("filter", 0, I64), ("ident", 8, U64)]);
    let link = image.structure("kn_link", 8, &[("sle_next", 0, U64)]);
    image.structure("knote", 40, &[("kn_link", 0, link), ("kn_kevent", 8, event), ("kn_sfflags", 24, U32)]);
    let list = image.structure("klist", 8, &[("slh_first", 0, U64)]);
    let descriptors = image.structure(
        "filedesc",
        32,
        &[
            ("fd_knlist", 0, U64),
            ("fd_knlistsize", 8, U32),
            ("fd_knhash", 16, U64),
            ("fd_knhashmask", 24, U32),
        ],
    );
    let to_descriptors = image.pointer(descriptors);
    image.processes(&[(0x1100, 60, 1, "sshd")]);
    let at = image.types.iter().position(|kind| kind.name == "proc").unwrap();
    if let Shape::Structure(members) = &mut image.types[at].shape {
        members.push(Member { name: "p_fd".to_string(), offset: 0x60, kind: to_descriptors });
        members.push(Member { name: "p_klist".to_string(), offset: 0x68, kind: list });
    }
    image.word(0x1160, 0x1200);
    image.word(0x1168, 0x1500);
    image.word(0x1200, 0x1280);
    image.put(0x1208, &1u32.to_le_bytes());
    image.word(0x1210, 0x12c0);
    // The second list of the first table, and the list of the process.
    image.word(0x1288, 0x1400);
    image.word(0x1408, (-4i64) as u64);
    image.word(0x1410, 3);
    image.put(0x1418, &0x21u32.to_le_bytes());
    image.word(0x1508, (-5i64) as u64);
    image.word(0x1510, 60);
    image.put(0x1518, &0x8000_0000u32.to_le_bytes());
    image.word(0x1500, 0x1600);
    // The kernel has no name for this filter.
    image.word(0x1608, (-11i64) as u64);
    assert_eq!(
        report(Kevents, image),
        vec![
            vec!["60", "sshd", "3", "EVFILT_VNODE", "NOTE_DELETE,NOTE_RENAME"],
            vec!["60", "sshd", "60", "EVFILT_PROC", "NOTE_EXIT"],
        ]
    );
}

#[test]
fn flags_are_named_for_the_filters_that_have_any() {
    assert_eq!(parse_flags(4, 0), "");
    assert_eq!(parse_flags(4, 0x7f), "NOTE_DELETE,NOTE_WRITE,NOTE_EXTEND,NOTE_ATTRIB,NOTE_LINK,NOTE_RENAME,NOTE_REVOKE");
    assert_eq!(parse_flags(5, 0x2400_0000), "NOTE_EXITSTATUS,NOTE_EXEC");
    assert_eq!(parse_flags(7, 9), "NOTE_SECONDS,NOTE_ABSOLUTE");
    assert_eq!(parse_flags(1, 9), "");
    assert_eq!(name_filter(12), Some("EVFILT_VM"));
    assert_eq!(name_filter(11), None);
    assert_eq!(name_filter(0), None);
}

fn mapped_image() -> Image {
    let mut image = two_processes();
    image.own_memory(0x1200);
    let entry = |start: u64, end: u64, protection: &str, path: &str, special: &str| MapEntry {
        start: Some(start),
        end: Some(end),
        protection: protection.to_string(),
        path: path.to_string(),
        special: special.to_string(),
    };
    image.mac.maps.push(ProcessMap {
        process: 0x1200,
        entries: vec![
            entry(0x2000, 0x2004, "r-x", "/bin/sshd", ""),
            entry(0x2800, 0x2900, "rwx", "", "[stack]"),
            entry(0x3000, 0x2f00, "r-x", "", ""),
        ],
    });
    image.put(0x2000, b"\xcf\xfa\xed\xfe");
    image
}

#[test]
fn mappings_are_listed_and_extracted() {
    let rows = report(Maps, mapped_image());
    assert_eq!(
        rows,
        vec![
            vec!["60", "sshd", "0x2000", "0x2004", "r-x", "/bin/sshd", "Disabled"],
            vec!["60", "sshd", "0x2800", "0x2900", "rwx", "[stack]", "Disabled"],
            vec!["60", "sshd", "0x3000", "0x2f00", "r-x", "", "Disabled"],
        ]
    );
    let mut config = Configuration::new();
    config.set("dump", ConfigValue::Bool(true));
    config.set("maxsize", ConfigValue::Int(0x100));
    let mut context = mapped_image().context();
    context.output.existing.push("pid.60.vma.0x2000-0x2004.dmp".to_string());
    let grid = Maps.run(&context, &config).unwrap();
    let files: Vec<String> = shown(&grid).iter().map(|row| row[6].clone()).collect();
    assert_eq!(
        files,
        vec!["pid.60.vma.0x2000-0x2004.dmp", "Error outputting file", "Error outputting file"]
    );
    assert_eq!(grid.files.len(), 1);
    assert_eq!(grid.files[0].name, "pid.60.vma.0x2000-0x2004-1.dmp");
    assert_eq!(grid.files[0].data, b"\xcf\xfa\xed\xfe");
}

#[test]
fn an_address_selects_the_mapping_around_it() {
    let mut config = Configuration::new();
    config.set("address", ConfigValue::List(vec![ConfigValue::Int(0x2900)]));
    let rows = shown(&Maps.run(&mapped_image().context(), &config).unwrap());
    assert_eq!(rows.len(), 1);
    assert_eq!(rows[0][2], "0x2800");
}

#[test]
fn regions_that_look_injected_are_left_out() {
    let rows = report(Malfind, mapped_image());
    assert_eq!(rows.len(), 1);
    assert_eq!(rows[0][..5], ["60", "sshd", "0x2000", "0x2004", "r-x"]);
    assert!(rows[0][5].starts_with("cf fa ed fe 00"));
}
