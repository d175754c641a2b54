//! Windows plugins on a small image.

use memory_plugins::config::{ConfigValue, Configuration};
use memory_plugins::context::{
    Choice, Context, Layer, Member, Module, Object, Region, Shape, Symbol, SymbolTable,
    TypeDefinition, TypeId,
};
use memory_plugins::error::VolatilityError;
use memory_plugins::plugins::output::Output;
use memory_plugins::plugins::tree::Siblings;
use memory_plugins::plugins::windows::bigpools::{read_tag, BigPools};
use memory_plugins::plugins::windows::callbacks::Callbacks;
use memory_plugins::plugins::windows::cmdline::CmdLine;
use memory_plugins::plugins::windows::consoles::{CmdScan, Consoles};
use memory_plugins::plugins::windows::crashinfo::CrashInfo;
use memory_plugins::plugins::windows::debugregisters::DebugRegisters;
use memory_plugins::plugins::windows::devicetree::{device_type_name, DeviceTree};
use memory_plugins::plugins::windows::dlllist::DllList;
use memory_plugins::plugins::windows::driverirp::DriverIrp;
use memory_plugins::plugins::windows::driverscan::DriverScan;
use memory_plugins::plugins::windows::dumpfiles::DumpFiles;
use memory_plugins::plugins::windows::envars::{split_environment, Envars};
use memory_plugins::plugins::windows::etwpatch::EtwPatch;
use memory_plugins::plugins::windows::filescan::FileScan;
use memory_plugins::plugins::windows::getservicesids::GetServiceSids;
use memory_plugins::plugins::windows::getsids::GetSids;
use memory_plugins::plugins::windows::handles::Handles;
use memory_plugins::plugins::windows::iat::{ordinal_name, ordinal_tables, Iat};
use memory_plugins::plugins::windows::info::Info;
use memory_plugins::plugins::windows::joblinks::JobLinks;
use memory_plugins::plugins::windows::kpcrs::Kpcrs;
use memory_plugins::plugins::windows::load_companion_module;
use memory_plugins::plugins::windows::mbrscan::{cylinder, hash, MbrScan};
use memory_plugins::plugins::windows::memmap::MemMap;
use memory_plugins::plugins::windows::mftscan::{
    decode_utf16, enumerate_records, search, Ads, MftScan, ResidentData,
};
use memory_plugins::plugins::windows::modules::{ModScan, Modules};
use memory_plugins::plugins::windows::mutantscan::MutantScan;
use memory_plugins::plugins::windows::netscan::{choose_table, create_time, rows_for, NetScan};
use memory_plugins::plugins::windows::netstat::decode_pointer;
use memory_plugins::plugins::windows::pe_symbols::{
    file_for_address, file_name, MappedRange, PeSymbols,
};
use memory_plugins::plugins::windows::pedump::PeDump;
use memory_plugins::plugins::windows::poolscanner::PoolScanner;
use memory_plugins::plugins::windows::privileges::Privileges;
use memory_plugins::plugins::windows::pslist::{sanitize_filename, PsList};
use memory_plugins::plugins::windows::psscan::PsScan;
use memory_plugins::plugins::windows::pstree::PsTree;
use memory_plugins::plugins::{Plugin, TimeKind};
use memory_plugins::renderers::{TreeGrid, Value};
use memory_plugins::symbols::mac::Mac;
use memory_plugins::symbols::registry::{Hive, RegistryKey, RegistryValue};
use memory_plugins::symbols::security::{PrivilegeName, Security, SidName, Token, TokenPrivilege};
use memory_plugins::symbols::windows::{
    AddressSpace, CodeModule, CrashHeader, DebugRecord, Export, HeaderName, Import, NamedPlace,
    PeImage, PoolConstraint, PoolHit, PublishedSymbols, ReadExports, RebuiltImage, Stretch, TypeName,
    Vad, Windows, NONPAGED,
};

const U8: usize = 0;
const U16: usize = 1;
const U32: usize = 2;
const U64: usize = 3;
const I64: usize = 4;
const NAME: usize = 6;

const BASE: u64 = 0x1000;

struct Image {
    bytes: Vec<u8>,
    types: Vec<TypeDefinition>,
    symbols: Vec<Symbol>,
    windows: Windows,
}

fn integer(name: &str, size: u64, signed: bool) -> TypeDefinition {
    TypeDefinition { name: name.to_string(), size, shape: Shape::Integer { size, signed } }
}

impl Image {
    fn new() -> Image {
        Image {
            bytes: vec![0; 0x4000],
            types: vec![
                integer("unsigned char", 1, false),
                integer("unsigned short", 2, false),
                integer("unsigned int", 4, false),
                integer("unsigned long", 8, false),
                integer("long", 8, true),
                TypeDefinition {
                    name: "char *".to_string(),
                    size: 8,
                    shape: Shape::Pointer { size: 8, target: U8 },
                },
                TypeDefinition {
                    name: "name".to_string(),
                    size: 16,
                    shape: Shape::Text { length: 16 },
                },
            ],
            symbols: Vec::new(),
            windows: Windows {
                spaces: Vec::new(),
                cookie: None,
                type_names: Vec::new(),
                header_names: Vec::new(),
                sound_processes: Vec::new(),
                images: Vec::new(),
                pe_images: Vec::new(),
                read_exports: Vec::new(),
                stretches: Vec::new(),
                vads: Vec::new(),
                records: Vec::new(),
                installed: Vec::new(),
                published: Vec::new(),
                pool: None,
                code: None,
                hives: None,
                security: Security {
                    tokens: Vec::new(),
                    well_known: Vec::new(),
                    services: Vec::new(),
                    patterned: Vec::new(),
                    known_services: Vec::new(),
                    privileges: Vec::new(),
                },
                ordinals: String::new(),
                crashes: Vec::new(),
                builtin: Vec::new(),
            },
        }
    }

    fn put(&mut self, at: u64, bytes: &[u8]) {
        let start = (at - BASE) as usize;
        self.bytes[start..start + bytes.len()].copy_from_slice(bytes);
    }

    fn word(&mut self, at: u64, value: u64) {
        self.put(at, &value.to_le_bytes());
    }

    fn define(&mut self, name: &str, size: u64, shape: Shape) -> usize {
        self.types.push(TypeDefinition { name: name.to_string(), size, shape });
        self.types.len() - 1
    }

    fn structure(&mut self, name: &str, size: u64, members: &[(&str, u64, usize)]) -> usize {
        let members = members
            .iter()
            .map(|(name, offset, kind)| Member {
                name: name.to_string(),
                offset: *offset,
                kind: *kind,
            })
            .collect();
        self.define(name, size, Shape::Structure(members))
    }

    fn pointer(&mut self, target: usize) -> usize {
        self.define("pointer", 8, Shape::Pointer { size: 8, target })
    }

    fn array(&mut self, element: usize, count: u64) -> usize {
        self.define("array", 0, Shape::Array { element, count })
    }

    fn symbol(&mut self, name: &str, address: u64, kind: usize) {
        self.symbols.push(Symbol { name: name.to_string(), address, kind: Some(kind) });
    }

    fn object(&self, kind: usize, offset: u64) -> Object {
        Object { kind: TypeId { table: 0, index: kind }, layer: 0, native: 0, offset }
    }

    fn context(self) -> Context {
        Context {
            layers: vec![Layer {
                name: "base".to_string(),
                mask: u64::MAX,
                minimum: 0,
                maximum: u64::MAX,
                regions: vec![Region { start: BASE, mapped: 0, below: 0, bytes: self.bytes }],
                kind: "Intel32e".to_string(),
                page_map: None,
                pae: false,
                below: Vec::new(),
            }],
            tables: vec![SymbolTable {
                name: "nt".to_string(),
                pointer_size: 8,
                source: None,
                types: self.types,
                symbols: self.symbols,
            }],
            modules: vec![Module {
                name: "kernel".to_string(),
                table: 0,
                layer: 0,
                offset: 0,
                absolute: true,
            }],
            output: Output { directory: None, existing: Vec::new(), refused: Vec::new() },
            siblings: Vec::new(),
            windows: self.windows,
            mac: Mac {
                lists: Vec::new(),
                spaces: Vec::new(),
                descriptors: Vec::new(),
                maps: Vec::new(),
                resolver: None,
                descriptor_kinds: Vec::new(),
                addresses: Vec::new(),
                link_addresses: Vec::new(),
                paths: Vec::new(),
            },
        }
    }
}

/// The moment 2020-01-01 00:00:00 as Windows counts it.
const NEW_YEAR: u64 = 132_223_104_000_000_000;

impl Image {
    fn list_entry(&mut self) -> usize {
        self.structure("_LIST_ENTRY", 16, &[("Flink", 0, U64), ("Blink", 8, U64)])
    }

    fn unicode(&mut self) -> usize {
        self.structure("_UNICODE_STRING", 16, &[("Length", 0, U16), ("Buffer", 8, U64)])
    }

    /// A counted string at a place, with its characters at another one.
    fn put_unicode(&mut self, at: u64, characters: u64, text: &str) {
        let bytes: Vec<u8> = text.encode_utf16().flat_map(|unit| unit.to_le_bytes()).collect();
        self.put(at, &(bytes.len() as u16).to_le_bytes());
        self.word(at + 8, characters);
        self.put(characters, &bytes);
    }

    /// The kernel's list of processes, one every 0x100 bytes from 0x1100 on.
    fn processes(&mut self, list: &[(u64, u64, &str)]) -> usize {
        let entry = self.list_entry();
        let unicode = self.unicode();
        let quad = self.structure("_LARGE_INTEGER", 8, &[("QuadPart", 0, U64)]);
        let table = self.structure("_HANDLE_TABLE", 16, &[("HandleCount", 0, U32), ("TableCode", 8, U64)]);
        let to_table = self.pointer(table);
        let parameters = self.structure(
            "_RTL_USER_PROCESS_PARAMETERS",
            0x40,
            &[
                ("CommandLine", 0, unicode),
                ("ImagePathName", 16, unicode),
                ("Environment", 32, U64),
                ("EnvironmentSize", 40, U64),
            ],
        );
        let to_parameters = self.pointer(parameters);
        let loader = self.structure("_PEB_LDR_DATA", 16, &[("InLoadOrderModuleList", 0, entry)]);
        let to_loader = self.pointer(loader);
        self.structure(
            "_PEB",
            24,
            &[("ImageBaseAddress", 0, U64), ("ProcessParameters", 8, to_parameters), ("Ldr", 16, to_loader)],
        );
        self.structure("_MM_SESSION_SPACE", 8, &[("SessionId", 0, U32)]);
        let kind = self.structure(
            "_EPROCESS",
            0xe0,
            &[
                ("UniqueProcessId", 0, U64),
                ("InheritedFromUniqueProcessId", 8, U64),
                ("ImageFileName", 16, NAME),
                ("ActiveProcessLinks", 32, entry),
                ("ActiveThreads", 48, U32),
                ("ObjectTable", 56, to_table),
                ("Session", 64, U64),
                ("Wow64Process", 72, U64),
                ("CreateTime", 80, quad),
                ("ExitTime", 88, quad),
                ("Peb", 96, U64),
                ("ThreadListHead", 104, entry),
                ("Job", 120, U64),
                ("JobLinks", 128, entry),
            ],
        );
        self.symbol("PsActiveProcessHead", 0x1080, entry);
        let mut previous = 0x1080;
        for (index, (pid, ppid, name)) in list.iter().enumerate() {
            let at = 0x1100 + 0x100 * index as u64;
            self.word(at, *pid);
            self.word(at + 8, *ppid);
            self.put(at + 16, name.as_bytes());
            self.word(previous, at + 32);
            self.word(at + 32, 0x1080);
            self.word(at + 80, NEW_YEAR);
            previous = at + 32;
        }
        if list.is_empty() {
            self.word(0x1080, 0x1080);
        }
        kind
    }

    /// Give the process at a place its own memory, with a block at another place.
    fn own_memory(&mut self, process: u64, peb: u64) {
        self.windows.spaces.push(AddressSpace {
            process,
            physical: "base".to_string(),
            layer: 0,
            peb32: None,
        });
        self.word(process + 96, peb);
    }

    fn hit(&self, tag: &[u8; 4], structure: &str, kind: usize, at: u64) -> PoolHit {
        PoolHit {
            tag: u32::from_le_bytes(*tag),
            structure: structure.to_string(),
            object_type: Some("Thing".to_string()),
            size: 0x200,
            pool: NONPAGED,
            index: 0,
            table: 0,
            header: self.object(U64, at - 0x10),
            object: self.object(kind, at),
        }
    }

    /// Headers in front of kernel objects, each 16 bytes long.
    fn headers(&mut self) {
        self.structure("_OBJECT_HEADER", 24, &[("TypeIndex", 0, U8), ("Body", 16, U64)]);
    }

    fn called(&mut self, object: u64, name: &str) {
        self.windows.header_names.push(HeaderName { header: object - 16, name: name.to_string() });
    }
}

fn shown(grid: &TreeGrid) -> Vec<Vec<String>> {
    grid.lines
        .iter()
        .map(|line| line.row.values.iter().map(|value| value.show()).collect())
        .collect()
}

fn report<P: Plugin>(plugin: P, image: Image) -> Vec<Vec<String>> {
    shown(&plugin.run(&image.context(), &Configuration::new()).unwrap())
}

fn is_unavailable<P: Plugin>(plugin: P, image: Image) -> bool {
    matches!(
        plugin.run(&image.context(), &Configuration::new()),
        Err(VolatilityError::Unavailable)
    )
}

fn words_of(error: VolatilityError) -> String {
    match error {
        VolatilityError::Other(words) => words,
        VolatilityError::Unavailable => panic!("an error without words"),
    }
}

fn two_processes() -> Image {
    let mut image = Image::new();
    image.processes(&[(4, 0, "System"), (600, 4, "smss.exe")]);
    image
}

#[test]
fn a_missing_kernel_is_said() {
    let mut context = two_processes().context();
    context.modules.clear();
    let error = PsList.run(&context, &Configuration::new()).unwrap_err();
    assert!(words_of(error).starts_with("No kernel symbols are loaded for this image. Windows"));
}

#[test]
fn processes_are_listed_with_their_details() {
    let mut image = two_processes();
    image.put(0x1200 + 48, &3u32.to_le_bytes());
    image.word(0x1200 + 56, 0x2000);
    image.put(0x2000, &77u32.to_le_bytes());
    image.word(0x1200 + 64, 0x2100);
    image.put(0x2100, &1u32.to_le_bytes());
    let rows = report(PsList, image);
    assert_eq!(rows.len(), 2);
    assert_eq!(
        rows[1],
        vec![
            "600", "4", "smss.exe", "0x1200", "3", "77", "1", "False",
            "2020-01-01 00:00:00+00:00", "N/A", "Disabled",
        ]
    );
    assert_eq!(rows[0][6], "N/A");
    assert!(is_unavailable(PsList, Image::new()));
}

#[test]
fn a_listing_contributes_two_moments_for_each_process() {
    let timeline = PsList.timeline(&two_processes().context(), &Configuration::new()).unwrap();
    assert_eq!(timeline.entries.len(), 4);
    assert_eq!(timeline.entries[2].description, "Process: 600 smss.exe (4608)");
    assert_eq!(timeline.entries[2].kind, TimeKind::Created);
    assert_eq!(timeline.entries[3].kind, TimeKind::Modified);
}

#[test]
fn an_image_is_written_under_a_free_name() {
    let mut image = two_processes();
    image.own_memory(0x1200, 0x2000);
    image.word(0x2000, 0x7000);
    image.windows.images.push(RebuiltImage { layer: 0, base: 0x7000, data: vec![1, 2, 3] });
    let mut context = image.context();
    context.output.existing.push("600.smss.exe.0x7000.dmp".to_string());
    let mut config = Configuration::new();
    config.set("dump", ConfigValue::Bool(true));
    let grid = PsList.run(&context, &config).unwrap();
    let rows = shown(&grid);
    assert_eq!(rows[0][10], "Error outputting file");
    // This listing reports the name taken.
    assert_eq!(rows[1][10], "600.smss.exe.0x7000-1.dmp");
    assert_eq!(grid.files.len(), 1);
    assert_eq!(grid.files[0].name, "600.smss.exe.0x7000-1.dmp");
    assert_eq!(grid.files[0].data, vec![1, 2, 3]);
    // Nothing is reported as written where writing fails.
    context.output.refused.push("600.smss.exe.0x7000-1.dmp".to_string());
    let grid = PsList.run(&context, &config).unwrap();
    assert!(grid.files.is_empty());
    assert_eq!(shown(&grid)[1][10], "Error outputting file");
}

#[test]
fn names_are_cleaned_before_they_become_files() {
    assert_eq!(sanitize_filename("a/b\\c:d.exe"), "a_b_c_d.exe");
    assert_eq!(sanitize_filename("caf\u{e9} (1)"), "caf_ (1)");
    let once = sanitize_filename("x|y*z_");
    assert_eq!(sanitize_filename(&once), once);
}

#[test]
fn processes_are_found_in_the_pools() {
    let mut image = Image::new();
    let kind = image.processes(&[(4, 0, "System")]);
    let hit = image.hit(b"Proc", "_EPROCESS", kind, 0x1100);
    let other = image.hit(b"File", "_FILE_OBJECT", kind, 0x1100);
    image.windows.builtin.push(PoolConstraint {
        tag: u32::from_le_bytes(*b"Proc"),
        structure: "_EPROCESS",
        pool: NONPAGED,
        table: 0,
        least: Some(0x100),
        most: None,
        least_index: None,
        most_index: None,
    });
    image.windows.pool = Some(vec![hit, other]);
    let rows = report(PsScan, image);
    assert_eq!(rows.len(), 1);
    assert_eq!(rows[0][..4], ["4", "0", "System", "0x1100"]);
    assert!(is_unavailable(PsScan, two_processes()));
}

#[test]
fn a_tree_nests_children() {
    let mut image = Image::new();
    image.processes(&[(4, 0, "System"), (600, 4, "smss.exe"), (700, 600, "csrss.exe"), (5, 0, "Registry")]);
    image.own_memory(0x1200, 0x2000);
    image.word(0x2008, 0x2100);
    image.put_unicode(0x2100, 0x2200, "smss -a");
    image.put_unicode(0x2110, 0x2240, "C:\\smss.exe");
    let context = image.context();
    let grid = PsTree.run(&context, &Configuration::new()).unwrap();
    let depths: Vec<usize> = grid.lines.iter().map(|line| line.depth).collect();
    let rows = shown(&grid);
    assert_eq!(depths, vec![0, 1, 2, 0]);
    assert_eq!(rows[1][..4], ["600", "4", "smss.exe", "0x1200"]);
    assert_eq!(rows[1][11..], ["smss -a", "C:\\smss.exe"]);
    assert_eq!(rows[3][2], "Registry");
    // The order of siblings is that in which their parent hands them over.
    let mut image = Image::new();
    image.processes(&[(4, 0, "System"), (600, 4, "a.exe"), (700, 4, "b.exe"), (800, 4, "c.exe")]);
    let mut handed = image.context();
    handed.siblings.push(Siblings { parent: 4, order: vec![800, 600, 700] });
    let rows = shown(&PsTree.run(&handed, &Configuration::new()).unwrap());
    let names: Vec<&str> = rows.iter().map(|row| row[2].as_str()).collect();
    assert_eq!(names, vec!["System", "c.exe", "a.exe", "b.exe"]);
    // A filter keeps what the process descends from and what descends from it.
    let mut config = Configuration::new();
    config.set("pid", ConfigValue::Int(600));
    let rows = shown(&PsTree.run(&context, &config).unwrap());
    let names: Vec<&str> = rows.iter().map(|row| row[2].as_str()).collect();
    assert_eq!(names, vec!["System", "smss.exe", "csrss.exe"]);
}

/// One loaded module of the second process.
fn loaded_module() -> Image {
    let mut image = two_processes();
    let entry = image.types.iter().position(|kind| kind.name == "_LIST_ENTRY").unwrap();
    let unicode = image.types.iter().position(|kind| kind.name == "_UNICODE_STRING").unwrap();
    image.structure(
        "_LDR_DATA_TABLE_ENTRY",
        0x60,
        &[
            ("InLoadOrderLinks", 0, entry),
            ("DllBase", 16, U64),
            ("SizeOfImage", 24, U32),
            ("FullDllName", 32, unicode),
            ("BaseDllName", 48, unicode),
            ("LoadCount", 64, U16),
        ],
    );
    image.own_memory(0x1200, 0x2000);
    image.word(0x2010, 0x2100);
    image.word(0x2100, 0x2200);
    image.word(0x2200, 0x2100);
    image.word(0x2210, 0x7000);
    image.put(0x2218, &0x3000u32.to_le_bytes());
    image.put_unicode(0x2220, 0x2300, "C:\\Windows\\ntdll.dll");
    image.put_unicode(0x2230, 0x2380, "ntdll.dll");
    image.put(0x2240, &0xffffu16.to_le_bytes());
    image
}

#[test]
fn loaded_modules_are_listed() {
    assert_eq!(
        report(DllList, loaded_module()),
        vec![vec![
            "600", "smss.exe", "0x7000", "0x3000", "ntdll.dll", "C:\\Windows\\ntdll.dll", "-1",
            "N/A", "Disabled",
        ]]
    );
}

#[test]
fn a_module_is_placed_when_it_was_loaded() {
    // Without a recorded load time there is nothing to place.
    let timeline = DllList.timeline(&loaded_module().context(), &Configuration::new()).unwrap();
    assert!(timeline.entries.is_empty() && !timeline.failed);
    let mut image = loaded_module();
    let time = image.structure("_LARGE_INTEGER", 8, &[("QuadPart", 0, U64)]);
    let entry = image.types.iter().position(|kind| kind.name == "_LDR_DATA_TABLE_ENTRY").unwrap();
    if let Shape::Structure(members) = &mut image.types[entry].shape {
        members.push(Member { name: "LoadTime".to_string(), offset: 72, kind: time });
    }
    let moment: u64 = (11_644_473_600 + 86_400) * 10_000_000;
    image.word(0x2248, moment);
    let context = image.context();
    assert_eq!(
        shown(&DllList.run(&context, &Configuration::new()).unwrap())[0][7],
        "1970-01-02 00:00:00+00:00"
    );
    let timeline = DllList.timeline(&context, &Configuration::new()).unwrap();
    assert!(!timeline.failed);
    assert_eq!(timeline.entries.len(), 1);
    let entry = &timeline.entries[0];
    assert_eq!(entry.kind, TimeKind::Created);
    assert_eq!(
        entry.description,
        "DLL Load: Process 600 smss.exe Loaded ntdll.dll (C:\\Windows\\ntdll.dll) Size 12288 \
         Offset 28672"
    );
    assert!(matches!(&entry.time, Value::DateTime(when) if when.seconds == 86_400));
    let mut config = Configuration::new();
    config.set("kernel", ConfigValue::Str("absent".to_string()));
    assert!(DllList.timeline(&context, &config).is_none());
}

#[test]
fn a_pattern_selects_modules() {
    let context = loaded_module().context();
    let mut config = Configuration::new();
    for (pattern, ignoring, count) in [
        ("^ntdll", false, 1),
        ("NTDLL", false, 0),
        ("NTDLL", true, 1),
        ("Windows.*dll$", false, 1),
        ("kernel32", false, 0),
        // A pattern that cannot be read matches nothing.
        ("(", false, 0),
    ] {
        config.set("name", ConfigValue::Str(pattern.to_string()));
        config.set("ignore-case", ConfigValue::Bool(ignoring));
        let grid = DllList.run(&context, &config).unwrap();
        assert_eq!(grid.lines.len(), count, "{}", pattern);
    }
}

#[test]
fn a_module_is_extracted_under_its_name_and_place() {
    let mut image = loaded_module();
    image.windows.images.push(RebuiltImage { layer: 0, base: 0x7000, data: b"MZ".to_vec() });
    let mut config = Configuration::new();
    config.set("dump", ConfigValue::Bool(true));
    config.set("base", ConfigValue::Int(0x7000));
    let grid = DllList.run(&image.context(), &config).unwrap();
    assert_eq!(shown(&grid)[0][8], "pid.600.ntdll.dll.0x2200.0x7000.dmp");
    assert_eq!(grid.files[0].data, b"MZ");
    // A file is left behind even where the image could not be rebuilt.
    let grid = DllList.run(&loaded_module().context(), &config).unwrap();
    assert_eq!(shown(&grid)[0][8], "Error outputting file");
    assert!(grid.files[0].data.is_empty());
    config.set("base", ConfigValue::Int(0x8000));
    assert!(DllList.run(&loaded_module().context(), &config).unwrap().lines.is_empty());
}

#[test]
fn the_kernels_own_modules_are_listed() {
    let mut image = loaded_module();
    image.symbol("PsLoadedModuleList", 0x2100, 0);
    let context = image.context();
    let grid = Modules.run(&context, &Configuration::new()).unwrap();
    assert_eq!(
        shown(&grid),
        vec![vec!["0x2200", "0x7000", "0x3000", "ntdll.dll", "C:\\Windows\\ntdll.dll", "Disabled"]]
    );
    let mut config = Configuration::new();
    config.set("name", ConfigValue::Str("tdl".to_string()));
    assert_eq!(Modules.run(&context, &config).unwrap().lines.len(), 1);
    config.set("name", ConfigValue::Str("TDL".to_string()));
    assert_eq!(Modules.run(&context, &config).unwrap().lines.len(), 0);
    assert!(is_unavailable(Modules, two_processes()));
}

#[test]
fn module_entries_are_found_in_the_pools() {
    let mut image = loaded_module();
    let kind = image.types.iter().position(|kind| kind.name == "_LDR_DATA_TABLE_ENTRY").unwrap();
    let hit = image.hit(b"MmLd", "_LDR_DATA_TABLE_ENTRY", kind, 0x2200);
    image.windows.pool = Some(vec![hit]);
    let mut config = Configuration::new();
    config.set("dump", ConfigValue::Bool(true));
    let rows = shown(&ModScan.run(&image.context(), &config).unwrap());
    // The processes belong to no session that maps the module.
    assert_eq!(rows[0][5], "Cannot find a viable session layer for 0x7000");
}

#[test]
fn command_lines_are_read_from_the_process() {
    let mut image = two_processes();
    image.own_memory(0x1200, 0x2000);
    image.word(0x2008, 0x2100);
    image.put_unicode(0x2100, 0x2200, "smss.exe \u{e9}");
    assert_eq!(
        report(CmdLine, image),
        vec![vec!["4", "System", "-"], vec!["600", "smss.exe", "smss.exe \u{e9}"]]
    );
}

#[test]
fn environment_blocks_are_split_into_variables() {
    let bytes = |text: &str| -> Vec<u8> {
        text.encode_utf16().flat_map(|unit| unit.to_le_bytes()).collect()
    };
    let pair = |name: &str, value: &str| (name.to_string(), value.to_string());
    assert_eq!(
        split_environment(&bytes("=C:=C:\\\0OS=Windows_NT\0Path=a=b\0Empty=\0none\0tail")),
        vec![pair("OS", "Windows_NT"), pair("Path", "a=b"), pair("non", "none")]
    );
    assert!(split_environment(&Vec::new()).is_empty());
    let mut image = two_processes();
    image.own_memory(0x1200, 0x2000);
    image.word(0x2008, 0x2100);
    image.word(0x2120, 0x2200);
    let block = bytes("A=1\0");
    image.word(0x2128, block.len() as u64);
    image.put(0x2200, &block);
    assert_eq!(report(Envars, image), vec![vec!["600", "smss.exe", "0x2120", "A", "1"]]);
}

#[test]
fn ordinals_stand_for_names() {
    let tables = ordinal_tables("{\"ws2_32.dll\": {\"1\": \"accept\", \"23\": \"socket\"}}");
    assert_eq!(ordinal_name(&tables, "WS2_32.dll", 23), Some("socket".to_string()));
    assert_eq!(ordinal_name(&tables, "ws2_32.dll", 7), Some("ord7".to_string()));
    assert_eq!(ordinal_name(&tables, "other.dll", 1), None);
    assert!(ordinal_tables("no tables").is_empty());
}

#[test]
fn imports_are_listed() {
    let mut image = two_processes();
    image.own_memory(0x1200, 0x2000);
    image.word(0x2000, 0x7000);
    let import = |function: Option<&str>, ordinal: u16, slot: u32| Import {
        library: "WSOCK32.dll".to_string(),
        bound: false,
        function: function.map(|name| name.to_string()),
        ordinal,
        slot,
    };
    image.windows.pe_images.push(PeImage {
        layer: 0,
        base: 0x7000,
        size_of_image: 0x3000,
        time_date_stamp: 0,
        major_operating_system_version: 10,
        minor_operating_system_version: 0,
        machine_value: 0x8664,
        exports: None,
        imports: Some(vec![import(Some("send"), 0, 0x10), import(None, 2, 0x18)]),
    });
    image.windows.ordinals = "{\"wsock32.dll\": {\"2\": \"bind\"}}".to_string();
    // The base is counted twice over.
    assert_eq!(
        report(Iat, image),
        vec![
            vec!["600", "smss.exe", "WSOCK32.dll", "False", "send", "0xe010"],
            vec!["600", "smss.exe", "WSOCK32.dll", "False", "bind", "0xe018"],
        ]
    );
}

#[test]
fn neighbouring_regions_of_a_map_are_one() {
    let mut image = two_processes();
    image.own_memory(0x1200, 0x2000);
    let mut context = image.context();
    context.layers[0].regions.push(Region { start: 0x5000, mapped: 0x4000, below: 0, bytes: vec![9; 0x10] });
    context.layers[0].regions.push(Region { start: 0x6000, mapped: 0x9000, below: 0, bytes: vec![7; 0x20] });
    context.layers[0].maximum = 0x10000;
    let mut config = Configuration::new();
    config.set("pid", ConfigValue::Int(600));
    config.set("dump", ConfigValue::Bool(true));
    let grid = MemMap.run(&context, &config).unwrap();
    assert_eq!(
        shown(&grid),
        vec![
            vec!["0x1000", "0x0", "0x4010", "0x0", "pid.600.dmp"],
            vec!["0x6000", "0x9000", "0x20", "0x4010", "pid.600.dmp"],
        ]
    );
    assert_eq!(grid.files[0].data.len(), 0x4030);
    assert_eq!(grid.files[0].data[0x4000..], [[9u8; 0x10].to_vec(), [7u8; 0x20].to_vec()].concat()[..]);
    config.set("pid", ConfigValue::Int(5));
    assert_eq!(
        words_of(MemMap.run(&context, &config).unwrap_err()),
        "No process matched; memmap needs a --pid to describe"
    );
}

#[test]
fn boot_records_are_told_by_their_digests() {
    assert_eq!(hash(b""), "d41d8cd98f00b204e9800998ecf8427e");
    assert_eq!(hash(b"abc"), "900150983cd24fb0d6963f7d28e17f72");
    assert_eq!(cylinder(0xc1, 0x23), 0x300 + 0x23);
    let image = two_processes();
    let mut context = image.context();
    assert!(matches!(
        MbrScan.run(&context, &Configuration::new()),
        Err(VolatilityError::Unavailable)
    ));
    let structure = |name: &str, members: &[(&str, u64, usize)]| TypeDefinition {
        name: name.to_string(),
        size: 0x200,
        shape: Shape::Structure(
            members
                .iter()
                .map(|(name, offset, kind)| Member {
                    name: name.to_string(),
                    offset: *offset,
                    kind: *kind,
                })
                .collect(),
        ),
    };
    context.tables.push(SymbolTable {
        name: "mbr".to_string(),
        pointer_size: 8,
        source: None,
        types: vec![
            integer("unsigned char", 1, false),
            TypeDefinition {
                name: "signature".to_string(),
                size: 4,
                shape: Shape::Array { element: 0, count: 4 },
            },
            TypeDefinition {
                name: "kind".to_string(),
                size: 1,
                shape: Shape::Enumeration {
                    size: 1,
                    choices: vec![Choice { name: "PARTITION_NTFS".to_string(), value: 7 }],
                },
            },
            structure("PARTITION_ENTRY", &[("BootableFlag", 0, 0), ("PartitionType", 4, 2)]),
            structure(
                "PARTITION_TABLE",
                &[
                    ("DiskSignature", 0x1b8, 1),
                    ("FirstEntry", 0x1be, 3),
                    ("SecondEntry", 0x1ce, 3),
                    ("ThirdEntry", 0x1de, 3),
                    ("FourthEntry", 0x1ee, 3),
                ],
            ),
        ],
        symbols: Vec::new(),
    });
    let record = &mut context.layers[0].regions[0].bytes[0x3000..0x3200];
    record[0] = 0xfa;
    record[0x1b8..0x1bc].copy_from_slice(&[1, 2, 3, 0xff]);
    record[0x1be] = 0x80;
    record[0x1c2] = 7;
    record[0x1fe..].copy_from_slice(&[0x55, 0xaa]);
    let grid = MbrScan.run(&context, &Configuration::new()).unwrap();
    let rows = shown(&grid);
    let depths: Vec<usize> = grid.lines.iter().map(|line| line.depth).collect();
    assert_eq!(depths, vec![0, 1, 1, 1, 1]);
    assert_eq!(rows[0][..2], ["0x41fe", "01-02-03-ff"]);
    assert_eq!(rows[1][4..7], ["1", "True", "PARTITION_NTFS"]);
    assert_eq!(rows[2][4..7], ["2", "False", "Not Defined PartitionType"]);
    assert_eq!(rows[0].len(), MbrScan.columns().len());
    assert_eq!(rows[1].len(), MbrScan.columns().len());
}

fn file_record() -> Image {
    let mut image = Image::new();
    let at = 0x2000;
    image.put(at, b"FILE0");
    image.put(at + 18, &2u16.to_le_bytes());
    image.put(at + 20, &0x38u16.to_le_bytes());
    image.put(at + 22, &[1]);
    image.put(at + 44, &42u32.to_le_bytes());
    // The times of the record itself.
    let standard = at + 0x38;
    image.put(standard, &[16]);
    image.put(standard + 4, &0x60u32.to_le_bytes());
    image.word(standard + 24, NEW_YEAR);
    // A name.
    let name = standard + 0x60;
    image.put(name, &[48]);
    image.put(name + 4, &0x70u32.to_le_bytes());
    image.word(name + 24 + 8, NEW_YEAR);
    image.put(name + 24 + 56, &[34]);
    image.put(name + 24 + 64, &[5]);
    let units: Vec<u8> = "a.txt".encode_utf16().flat_map(|unit| unit.to_le_bytes()).collect();
    image.put(name + 24 + 66, &units);
    // Its content, and a stream beside it.
    let data = name + 0x70;
    image.put(data, &[128]);
    image.put(data + 4, &0x20u32.to_le_bytes());
    image.put(data + 16, &2u32.to_le_bytes());
    image.put(data + 20, &24u16.to_le_bytes());
    image.put(data + 24, b"hi");
    let stream = data + 0x20;
    image.put(stream, &[128]);
    image.put(stream + 4, &0x28u32.to_le_bytes());
    image.put(stream + 9, &[1]);
    image.put(stream + 10, &24u16.to_le_bytes());
    image.put(stream + 16, &3u32.to_le_bytes());
    image.put(stream + 20, &32u16.to_le_bytes());
    image.put(stream + 24, b"s\0");
    image.put(stream + 32, b"bad");
    image
}

#[test]
fn file_records_are_found_with_their_names() {
    let context = file_record().context();
    let grid = MftScan.run(&context, &Configuration::new()).unwrap();
    let rows = shown(&grid);
    assert_eq!(rows.len(), 2);
    assert_eq!(
        rows[0][..8],
        ["0x2050", "FILE", "42", "2", "File", "N/A", "STANDARD_INFORMATION", "2020-01-01 00:00:00+00:00"]
    );
    assert_eq!(rows[1][4..7], ["File", "ArchiveHidden", "FILE_NAME"]);
    assert_eq!(rows[1][11], "a.txt");
    assert_eq!(grid.lines[1].depth, 1);
    let timeline = MftScan.timeline(&context, &Configuration::new()).unwrap();
    assert_eq!(timeline.entries.len(), 8);
    assert_eq!(timeline.entries[0].description, "MFT STANDARD_INFORMATION entry for a.txt");
    assert_eq!(timeline.entries[6].description, "MFT FILE_NAME entry for a.txt");
    assert_eq!(timeline.entries[6].kind, TimeKind::Changed);
}

#[test]
fn a_record_is_reported_for_each_stretch_that_sees_it() {
    let mut image = file_record();
    image.put(0x3000, b"BAAD");
    let stretch = |first: u64, last: u64| Stretch { layer: 0, first, last };
    image.windows.stretches =
        vec![stretch(0x1000, 0x20ff), stretch(0x2000, 0x2fff), Stretch { layer: 1, ..stretch(0, u64::MAX) }];
    let context = image.context();
    let records = enumerate_records(&context, 0);
    let places: Vec<u64> = records.iter().map(|record| record.offset).collect();
    assert_eq!(places, vec![0x2000, 0x2000, 0x3000]);
    assert_eq!(MftScan.run(&context, &Configuration::new()).unwrap().lines.len(), 4);
    let stretches = vec![stretch(1, 4), stretch(3, 6)];
    assert_eq!(search(&stretches, 0, &vec![1, 3, 4, 6, 9]), vec![1, 3, 4, 3, 4, 6, 9]);
    assert_eq!(search(&stretches, 1, &vec![3]), vec![3]);
}

#[test]
fn content_and_streams_are_recovered_from_a_record() {
    let rows = report(ResidentData, file_record());
    assert_eq!(rows, vec![vec!["0x2120", "FILE", "42", "DATA", "a.txt", "68 69"]]);
    let rows = report(Ads, file_record());
    assert_eq!(rows, vec![vec!["0x2140", "FILE", "42", "DATA", "a.txt", "s", "62 61 64"]]);
}

#[test]
fn wide_names_may_say_which_way_round_they_are() {
    assert_eq!(decode_utf16(b"a\0b\0"), "ab");
    assert_eq!(decode_utf16(&[0xfe, 0xff, 0, b'a']), "a");
    assert_eq!(decode_utf16(&[0xff, 0xfe, b'a', 0]), "a");
    assert_eq!(decode_utf16(&[b'a', 0, 0, 0, b'b', 0]), "a");
    assert_eq!(decode_utf16(&[b'a', 0, b'b']), "a\u{fffd}");
}

#[test]
fn a_build_of_windows_has_a_description_of_its_sockets() {
    assert_eq!(choose_table(true, 10, 0, 19041), Some("netscan-win10-19041-x64"));
    assert_eq!(choose_table(false, 6, 1, 7601), Some("netscan-win7-x86"));
    // A build that is not listed uses the newest that is.
    assert_eq!(choose_table(true, 10, 0, 22621), Some("netscan-win10-20348-x64"));
    assert_eq!(choose_table(true, 5, 1, 2600), None);
}

#[test]
fn an_unsupported_version_is_said() {
    let mut image = two_processes();
    let version = image.structure("_DBGKD_GET_VERSION64", 8, &[("MinorVersion", 0, U16)]);
    image.symbol("KdVersionBlock", 0x2000, version);
    image.put(0x2000, &2600u16.to_le_bytes());
    image.structure("_KUSER_SHARED_DATA", 8, &[("NtMajorVersion", 0, U32), ("NtMinorVersion", 4, U32)]);
    let mut context = image.context();
    context.layers[0].regions.push(Region {
        start: 0xffff_f780_0000_0000,
        mapped: 0,
        below: 0,
        bytes: vec![5, 0, 0, 0, 1, 0, 0, 0],
    });
    let error = NetScan.run(&context, &Configuration::new()).unwrap_err();
    assert_eq!(words_of(error), "This version of Windows is not supported: 5.1 2600");
}

#[test]
fn a_socket_is_reported_while_its_time_is_believable() {
    let mut image = two_processes();
    let quad = image.types.iter().position(|kind| kind.name == "_LARGE_INTEGER").unwrap();
    let socket = image.structure("_TCP_LISTENER", 8, &[("CreateTime", 0, quad)]);
    image.word(0x2000, NEW_YEAR);
    // The year 2300.
    image.word(0x2008, 220_580_064_000_000_000);
    let (early, late) = (image.object(socket, 0x2000), image.object(socket, 0x2008));
    let context = image.context();
    assert_eq!(create_time(&context, early).show(), "2020-01-01 00:00:00+00:00");
    assert_eq!(create_time(&context, late).show(), "-");
}

#[test]
fn recorded_pointers_lose_the_bits_the_driver_keeps() {
    assert_eq!(decode_pointer(0x1003), 0x1000);
    assert_eq!(decode_pointer(decode_pointer(0xffff_ffff)), 0xffff_fffc);
}

#[test]
fn large_allocations_are_listed() {
    assert_eq!(read_tag(u64::from(u32::from_le_bytes(*b"Pool"))), "Pool");
    assert_eq!(read_tag(u64::from(u32::from_le_bytes(*b"MM \x01"))), "MM");
    let mut image = two_processes();
    image.structure(
        "_POOL_TRACKER_BIG_PAGES",
        24,
        &[("Va", 0, U64), ("Key", 8, U32), ("PoolType", 12, U32), ("NumberOfBytes", 16, U64)],
    );
    image.types.push(integer("unsigned long long", 8, false));
    image.symbol("PoolBigPageTable", 0x2000, U64);
    image.symbol("PoolBigPageTableSize", 0x2008, U64);
    image.word(0x2000, 0x2100);
    image.word(0x2008, 2);
    image.word(0x2100, 0x8000);
    image.put(0x2108, b"Pool");
    image.word(0x2110, 0x5000);
    // The low bit marks a free slot.
    image.word(0x2118, 0x9001);
    image.put(0x2120, b"Free");
    let context = image.context();
    let mut config = Configuration::new();
    let rows = shown(&BigPools.run(&context, &config).unwrap());
    assert_eq!(rows.len(), 1);
    assert_eq!((rows[0][0].as_str(), rows[0][1].as_str()), ("0x8000", "Pool"));
    assert_eq!(rows[0][3..], ["0x5000", "Allocated"]);
    config.set("show-free", ConfigValue::Bool(true));
    config.set("tags", ConfigValue::Str("Free,Other".to_string()));
    let rows = shown(&BigPools.run(&context, &config).unwrap());
    assert_eq!(rows.len(), 1);
    assert_eq!((rows[0][0].as_str(), rows[0][4].as_str()), ("0x9001", "Free"));
}

#[test]
fn privileges_with_a_name_are_listed() {
    let mut image = two_processes();
    let privilege = |value: u64, enabled: bool| TokenPrivilege {
        value,
        present: true,
        enabled,
        default: enabled,
    };
    image.windows.security.tokens.push(Token {
        process: 0x1200,
        sids: Vec::new(),
        privileges: vec![privilege(20, true), privilege(23, false), privilege(60, true)],
    });
    for (value, name) in [(20, "SeDebugPrivilege"), (23, "SeChangeNotifyPrivilege")] {
        image.windows.security.privileges.push(PrivilegeName {
            value,
            name: name.to_string(),
            description: "d".to_string(),
        });
    }
    assert_eq!(
        report(Privileges, image),
        vec![
            vec!["600", "smss.exe", "20", "SeDebugPrivilege", "Present,Enabled,Default", "d"],
            vec!["600", "smss.exe", "23", "SeChangeNotifyPrivilege", "Present", "d"],
        ]
    );
}

fn key(name: &str, subkeys: Vec<RegistryKey>, values: Vec<RegistryValue>) -> RegistryKey {
    RegistryKey { name: Some(name.to_string()), subkeys, values }
}

#[test]
fn accounts_are_named_from_the_registry() {
    let path = |path: &str| RegistryValue {
        name: Some("ProfileImagePath".to_string()),
        data: None,
        decoded: Some(path.to_string()),
    };
    let mut profiles = key(
        "ProfileList",
        vec![key("S-1-5-21-1-1001", Vec::new(), vec![path("C:\\Users\\old"), path("C:\\Users\\kim\0")])],
        Vec::new(),
    );
    for name in ["CURRENTVERSION", "Windows NT", "Microsoft", ""] {
        profiles = key(name, vec![profiles], Vec::new());
    }
    let mut image = two_processes();
    image.windows.hives = Some(vec![Hive {
        name: Some("\\SystemRoot\\System32\\Config\\SOFTWARE".to_string()),
        root: Some(profiles),
    }]);
    image.windows.security.tokens.push(Token {
        process: 0x1200,
        sids: vec!["S-1-5-18".to_string(), "S-1-5-21-1-1001".to_string(), "S-1-9".to_string()],
        privileges: Vec::new(),
    });
    image.windows.security.well_known.push(SidName {
        sid: "S-1-5-18".to_string(),
        name: "Local System".to_string(),
    });
    let rows = report(GetSids, image);
    let names: Vec<&str> = rows.iter().map(|row| row[3].as_str()).collect();
    // The last path that a profile holds counts.
    assert_eq!(names, vec!["Local System", "kim", "-"]);
}

#[test]
fn services_have_identifiers() {
    let mut image = two_processes();
    let services = key("services", vec![key("TrustedInstaller", Vec::new(), Vec::new())], Vec::new());
    let value = RegistryValue {
        name: Some("Current".to_string()),
        data: Some(1u32.to_le_bytes().to_vec()),
        decoded: None,
    };
    let select = key("Select", Vec::new(), vec![value]);
    let set = key("ControlSet001", vec![services], Vec::new());
    image.windows.hives = Some(vec![Hive {
        name: Some("\\REGISTRY\\MACHINE\\SYSTEM".to_string()),
        root: Some(key("", vec![select, set], Vec::new())),
    }]);
    let rows = report(GetServiceSids, image);
    let found: Vec<&Vec<String>> = rows.iter().filter(|row| row[1] == "TrustedInstaller").collect();
    assert_eq!(found.len(), 1);
    assert_eq!(
        found[0][0],
        "S-1-5-80-956008885-3418522649-1831038044-1853292631-2271478464"
    );
}

fn driver_image() -> (Image, usize) {
    let mut image = two_processes();
    let unicode = image.types.iter().position(|kind| kind.name == "_UNICODE_STRING").unwrap();
    image.headers();
    let extension = image.structure("_DRIVER_EXTENSION", 16, &[("ServiceKeyName", 0, unicode)]);
    let to_extension = image.pointer(extension);
    let handlers = image.array(U64, 28);
    let driver = image.structure(
        "_DRIVER_OBJECT",
        0x150,
        &[
            ("DriverStart", 0, U64),
            ("DriverSize", 8, U32),
            ("DriverName", 16, unicode),
            ("DriverExtension", 32, to_extension),
            ("DeviceObject", 40, U64),
            ("MajorFunction", 48, handlers),
        ],
    );
    let start = 0xffff_8000_0010_0000;
    image.word(0x2010, start);
    image.put(0x2018, &0x4000u32.to_le_bytes());
    image.put_unicode(0x2020, 0x2300, "\\Driver\\ACPI");
    image.word(0x2030, 0x2380);
    image.put_unicode(0x2380, 0x23a0, "ACPI");
    image.called(0x2010, "ACPI");
    image.windows.pool = Some(vec![image.hit(b"Driv", "_DRIVER_OBJECT", driver, 0x2010)]);
    (image, driver)
}

#[test]
fn drivers_go_by_three_names() {
    let (image, _) = driver_image();
    let rows = report(DriverScan, image);
    assert_eq!(rows.len(), 1);
    assert_eq!(rows[0][..3], ["0x2010", "0xffff800000100000", "0x4000"]);
    let mut names = rows[0][3..].to_vec();
    names.sort();
    assert_eq!(names, vec!["ACPI", "ACPI", "\\Driver\\ACPI"]);
    assert!(is_unavailable(DriverScan, two_processes()));
}

#[test]
fn handlers_of_requests_are_attributed() {
    let (mut image, _) = driver_image();
    let handler = 0xffff_8000_0010_0020;
    for index in 0..28 {
        image.word(0x2040 + 8 * index, handler);
    }
    image.windows.code = Some(vec![CodeModule {
        name: "acpi".to_string(),
        start: 0xffff_8000_0010_0000,
        size: 0x4000,
        symbols: vec![NamedPlace { name: "Dispatch".to_string(), address: handler }],
    }]);
    let rows = report(DriverIrp, image);
    assert_eq!(rows.len(), 28);
    assert_eq!(rows[0][1..], ["ACPI", "IRP_MJ_CREATE", "0xffff800000100020", "acpi", "Dispatch"]);
    assert_eq!(rows[27][2], "IRP_MJ_PNP");
}

#[test]
fn devices_hang_below_their_driver() {
    assert_eq!(device_type_name(7), "FILE_DEVICE_DISK");
    assert_eq!(device_type_name(0x39), "FILE_DEVICE_KSEC");
    assert_eq!(device_type_name(0), "UNKNOWN");
    assert_eq!(device_type_name(0x3a), "UNKNOWN");
    let (mut image, driver) = driver_image();
    let to_driver = image.pointer(driver);
    let device = image.structure(
        "_DEVICE_OBJECT",
        32,
        &[("DeviceType", 0, U32), ("DriverObject", 8, to_driver), ("NextDevice", 16, U64), ("AttachedDevice", 24, U64)],
    );
    let to_device = image.pointer(device);
    for (name, members) in [("_DRIVER_OBJECT", vec![4usize]), ("_DEVICE_OBJECT", vec![2, 3])] {
        let at = image.types.iter().position(|kind| kind.name == name).unwrap();
        if let Shape::Structure(list) = &mut image.types[at].shape {
            for member in members {
                list[member].kind = to_device;
            }
        }
    }
    image.word(0x2010 + 40, 0x2500);
    image.put(0x2500, &7u32.to_le_bytes());
    image.word(0x2510, 0xdead_0000);
    image.word(0x2518, 0x2580);
    image.put(0x2580, &8u32.to_le_bytes());
    image.word(0x2588, 0x2010);
    image.word(0x2598, 0xdead_0000);
    image.called(0x2500, "Harddisk0");
    let context = image.context();
    let grid = DeviceTree.run(&context, &Configuration::new()).unwrap();
    let depths: Vec<usize> = grid.lines.iter().map(|line| line.depth).collect();
    let rows = shown(&grid);
    assert_eq!(depths[..3], [0, 1, 2]);
    assert_eq!(rows[0][..3], ["0x2010", "DRV", "ACPI"]);
    assert_eq!(rows[1][1..], ["DEV", "ACPI", "Harddisk0", "N/A", "FILE_DEVICE_DISK"]);
    assert_eq!(rows[2][1], "ATT");
    assert_eq!(rows[2][4..], ["\\Driver\\ACPI", "FILE_DEVICE_DISK_FILE_SYSTEM"]);
}

#[test]
fn mutants_and_files_are_found_in_the_pools() {
    let mut image = two_processes();
    let unicode = image.types.iter().position(|kind| kind.name == "_UNICODE_STRING").unwrap();
    image.headers();
    let file = image.structure("_FILE_OBJECT", 16, &[("FileName", 0, unicode)]);
    image.put_unicode(0x2100, 0x2200, "\\a.txt");
    image.called(0x2050, "Global");
    let hits = |image: &Image| {
        vec![
            image.hit(b"Muta", "_KMUTANT", U64, 0x2050),
            image.hit(b"Muta", "_KMUTANT", U64, 0x2090),
            image.hit(b"File", "_FILE_OBJECT", file, 0x2100),
        ]
    };
    image.windows.pool = Some(hits(&image));
    let context = image.context();
    let config = Configuration::new();
    assert_eq!(
        shown(&MutantScan.run(&context, &config).unwrap()),
        vec![vec!["0x2050", "Global"], vec!["0x2090", "N/A"]]
    );
    assert_eq!(
        shown(&FileScan.run(&context, &config).unwrap()),
        vec![vec!["0x2100", "\\a.txt"]]
    );
    assert!(is_unavailable(MutantScan, two_processes()));
}

#[test]
fn a_general_scan_reports_what_is_built_in() {
    let mut image = Image::new();
    let kind = image.processes(&[(4, 0, "System")]);
    let mut hit = image.hit(b"Proc", "_EPROCESS", kind, 0x1100);
    hit.object_type = Some("Process".to_string());
    let small = image.hit(b"Proc", "_EPROCESS", kind, 0x1100);
    image.windows.builtin.push(PoolConstraint {
        tag: u32::from_le_bytes(*b"Proc"),
        structure: "_EPROCESS",
        pool: NONPAGED,
        table: 0,
        least: Some(0x200),
        most: Some(0x1000),
        least_index: None,
        most_index: None,
    });
    image.windows.pool = Some(vec![hit, PoolHit { size: 0x1f0, ..small }]);
    assert_eq!(
        report(PoolScanner, image),
        vec![vec!["nt!_EPROCESS", "0x10f0", "base", "System"]]
    );
}

#[test]
fn a_crash_dump_describes_itself() {
    let mut image = Image::new();
    image.windows.crashes.push(CrashHeader {
        layer: 0,
        is_64bit: true,
        directory_table_base: 0x1ad000,
        dump_type: 5,
    });
    let mut context = image.context();
    context.layers[0].regions[0].start = 0;
    context.layers[0].regions[0].bytes[0x08] = 15;
    context.layers[0].regions[0].bytes[0x18] = 0x99;
    context.layers[0].regions[0].bytes[0x34] = 8;
    let rows = shown(&CrashInfo.run(&context, &Configuration::new()).unwrap());
    assert_eq!(rows[0][..5], ["PAGE", "15", "0", "0x1ad000", "0x99"]);
    assert_eq!((rows[0][8].as_str(), rows[0][10].as_str(), rows[0][16].as_str()), ("8", "5", "-"));
    let error = CrashInfo.run(&Image::new().context(), &Configuration::new()).unwrap_err();
    assert_eq!(
        words_of(error),
        "This image is not a Windows crash dump; crashinfo has nothing to report"
    );
    let mut context = Image::new().context();
    context.layers[0].name = "primary".to_string();
    let error = CrashInfo.run(&context, &Configuration::new()).unwrap_err();
    assert_eq!(words_of(error), "No base layer");
}

#[test]
fn an_image_is_described() {
    let mut image = two_processes();
    let version = image.structure(
        "_DBGKD_GET_VERSION64",
        8,
        &[("MajorVersion", 0, U16), ("MinorVersion", 2, U16), ("MachineType", 4, U16)],
    );
    image.symbol("KdVersionBlock", 0x2000, version);
    image.put(0x2000, &[15, 0, 0x61, 0x4a, 0x64, 0x86]);
    image.symbol("KeNumberProcessors", 0x2010, U32);
    image.put(0x2010, &[4]);
    let time = image.structure("_KSYSTEM_TIME", 8, &[("LowPart", 0, U32), ("High1Time", 4, U32)]);
    image.structure(
        "_KUSER_SHARED_DATA",
        0x300,
        &[("SystemTime", 0, time), ("NtMajorVersion", 8, U32), ("NtMinorVersion", 12, U32), ("NtSystemRoot", 16, U16)],
    );
    image.windows.pe_images.push(PeImage {
        layer: 0,
        base: 0,
        size_of_image: 0,
        time_date_stamp: 1_577_836_800,
        major_operating_system_version: 10,
        minor_operating_system_version: 0,
        machine_value: 34404,
        exports: None,
        imports: None,
    });
    let mut shared = vec![0u8; 0x300];
    shared[..8].copy_from_slice(&NEW_YEAR.to_le_bytes());
    shared[8] = 10;
    shared[16..26].copy_from_slice(b"C\0:\0\\\0W\0\0\0");
    let mut context = image.context();
    context.layers[0].regions.push(Region { start: 0xffff_f780_0000_0000, mapped: 0, below: 0, bytes: shared });
    context.layers[0].page_map = Some(0x1ad000);
    let rows = shown(&Info.run(&context, &Configuration::new()).unwrap());
    let said = |name: &str| -> String {
        rows.iter().find(|row| row[0] == name).map(|row| row[1].clone()).unwrap()
    };
    assert_eq!(said("Is64Bit"), "True");
    assert_eq!(said("base"), "0 Intel32e");
    assert_eq!(said("Major/Minor"), "15.19041");
    assert_eq!(said("KeNumberProcessors"), "4");
    assert_eq!(said("SystemTime"), "2020-01-01 00:00:00+00:00");
    assert_eq!(said("NtSystemRoot"), "C:\\W");
    assert_eq!(said("NtMajorVersion"), "10");
    assert_eq!(said("PE Machine"), "34404");
    assert_eq!(said("PE TimeDateStamp"), "Wed Jan  1 00:00:00 2020");
}

#[test]
fn the_members_of_a_job_stand_below_it() {
    let mut image = two_processes();
    let entry = image.types.iter().position(|kind| kind.name == "_LIST_ENTRY").unwrap();
    let job = image.structure(
        "_EJOB",
        48,
        &[
            ("SessionId", 0, U32),
            ("TotalProcesses", 4, U32),
            ("ActiveProcesses", 8, U32),
            ("TotalTerminatedProcesses", 12, U32),
            ("ProcessListHead", 16, entry),
        ],
    );
    let to_job = image.pointer(job);
    let at = image.types.iter().position(|kind| kind.name == "_EPROCESS").unwrap();
    if let Shape::Structure(members) = &mut image.types[at].shape {
        members[12].kind = to_job;
    }
    image.word(0x1100 + 120, 0xdead_0000);
    image.word(0x1200 + 120, 0x2400);
    image.put(0x2400, &[1, 0, 0, 0, 2, 0, 0, 0, 1]);
    image.word(0x2410, 0x1200 + 128);
    image.word(0x1200 + 128, 0x2410);
    image.own_memory(0x1200, 0x2000);
    image.word(0x2008, 0x2100);
    image.put_unicode(0x2110, 0x2200, "C:\\smss.exe");
    let context = image.context();
    let grid = JobLinks.run(&context, &Configuration::new()).unwrap();
    let rows = shown(&grid);
    assert_eq!(rows.len(), 2);
    assert_eq!(rows[0][..3], ["0x1200", "smss.exe", "600"]);
    assert_eq!(rows[0][5..], ["1", "False", "2", "1", "0", "N/A", "(Original Process)"]);
    assert_eq!(rows[1][5..], ["0", "False", "0", "0", "0", "Yes", "C:\\smss.exe"]);
    assert_eq!(grid.lines[1].depth, 1);
}

#[test]
fn control_regions_stand_in_front_of_their_blocks() {
    let mut image = two_processes();
    image.structure("_KPCR", 0x200, &[("CurrentPrcb", 8, U64), ("Prcb", 0x180, U64)]);
    image.symbol("KiProcessorBlock", 0x2000, U64);
    image.symbol("KeNumberProcessors", 0x2040, U32);
    image.put(0x2040, &[3]);
    image.word(0x2000, 0x2280);
    image.word(0x2010, 0xdead_0000);
    image.word(0x2108, 0x2280);
    // The second processor has no block, and the third one's is not in the image.
    assert_eq!(report(Kpcrs, image), vec![vec!["0x2100", "0x2280"]]);
}

#[test]
fn breakpoints_are_attributed_to_code() {
    let mut image = two_processes();
    let entry = image.types.iter().position(|kind| kind.name == "_LIST_ENTRY").unwrap();
    let client = image.structure("_CLIENT_ID", 8, &[("UniqueThread", 0, U64)]);
    let block = image.structure("_KTHREAD", 24, &[("State", 0, I64), ("Dr7", 8, U64), ("Dr0", 16, U64)]);
    image.structure("_ETHREAD", 64, &[("Tcb", 0, block), ("Cid", 24, client), ("ThreadListEntry", 32, entry)]);
    image.word(0x1200 + 104, 0x2020);
    image.word(0x2000, 5);
    image.word(0x2008, 0x401);
    image.word(0x2010, 0x7010);
    image.word(0x2018, 88);
    image.word(0x2020, 0x1200 + 104);
    image.windows.code = Some(vec![CodeModule {
        name: "ntdll".to_string(),
        start: 0x7000,
        size: 0x100,
        symbols: vec![NamedPlace { name: "NtOpen".to_string(), address: 0x7010 }],
    }]);
    let rows = report(DebugRegisters, image);
    assert_eq!(rows.len(), 1);
    assert_eq!(rows[0][..8], ["smss.exe", "600", "88", "5", "1025", "0x7010", "ntdll", "NtOpen"]);
    assert_eq!(rows[0][8..11], ["0x0", "N/A", "N/A"]);
}

#[test]
fn handles_are_numbered_by_their_place() {
    let mut image = two_processes();
    image.structure("_HANDLE_TABLE_ENTRY", 16, &[("Object", 0, U64), ("GrantedAccess", 8, U32)]);
    image.structure("_OBJECT_HEADER", 24, &[("TypeIndex", 0, U8), ("Body", 16, U64)]);
    image.windows.type_names.push(TypeName { index: 3, name: "Mutant".to_string() });
    image.windows.type_names.push(TypeName { index: 7, name: "Process".to_string() });
    image.windows.header_names.push(HeaderName { header: 0x2500, name: "Lock".to_string() });
    image.word(0x1200 + 56, 0x2000);
    image.word(0x2008, 0x3000);
    image.word(0x3010, 0x2500 | 1);
    image.put(0x3018, &0x1f0001u32.to_le_bytes());
    image.put(0x2500, &[3]);
    image.word(0x3030, 0x1100 - 16);
    image.put(0x1100 - 16, &[7]);
    assert_eq!(
        report(Handles, image),
        vec![
            vec!["600", "smss.exe", "0x2510", "0x4", "Mutant", "0x1f0001", "Lock"],
            vec!["600", "smss.exe", "0x1100", "0xc", "Process", "0x0", "System Pid 4"],
        ]
    );
}

#[test]
fn an_image_is_extracted_from_a_process_or_the_kernel() {
    let mut image = two_processes();
    image.own_memory(0x1200, 0x2000);
    image.windows.images.push(RebuiltImage { layer: 0, base: 0x3000, data: b"MZ".to_vec() });
    let context = image.context();
    let mut config = Configuration::new();
    config.set("base", ConfigValue::Int(0x3000));
    // Neither place is named.
    assert!(PeDump.run(&context, &config).unwrap().lines.is_empty());
    config.set("pid", ConfigValue::Int(600));
    let grid = PeDump.run(&context, &config).unwrap();
    assert_eq!(shown(&grid), vec![vec!["600", "smss.exe", "PE.0x1200.600.0x3000.dmp"]]);
    assert_eq!(grid.files[0].data, b"MZ");
    config.set("kernel_module", ConfigValue::Bool(true));
    assert!(PeDump.run(&context, &config).unwrap().lines.is_empty());
}

fn companion(name: &str) -> SymbolTable {
    SymbolTable {
        name: name.to_string(),
        pointer_size: 8,
        source: None,
        types: Vec::new(),
        symbols: Vec::new(),
    }
}

#[test]
fn a_companion_is_loaded_once() {
    let kernel = Module {
        name: "kernel".to_string(),
        table: 0,
        layer: 0,
        offset: 0x7000,
        absolute: true,
    };
    let mut context = two_processes().context();
    let load = |context: &mut Context, found: Option<Result<SymbolTable, VolatilityError>>| {
        load_companion_module(context, &kernel, "win32k", "win32k", found)
    };
    assert_eq!(load(&mut context, None).unwrap(), None);
    assert!(load(&mut context, Some(Err(VolatilityError::Unavailable))).is_err());
    assert_eq!((context.modules.len(), context.tables.len()), (1, 1));
    context.tables.push(companion("win32k"));
    assert_eq!(load(&mut context, Some(Ok(companion("x")))).unwrap(), Some(1));
    assert_eq!(context.tables[2].name, "win32k-1");
    assert_eq!(context.modules[1].table, 2);
    assert_eq!(context.modules[1].offset, 0x7000);
    // The second time, the same module is used.
    assert_eq!(load(&mut context, Some(Ok(companion("y")))).unwrap(), Some(1));
    assert_eq!(context.modules.len(), 2);
}

/// A table beside the kernel's, which has the kernel's first types too.
fn with_table(context: &mut Context, name: &str, structures: &[(&str, u64, &[(&str, u64, usize)])]) {
    let mut types = Image::new().types;
    for (name, size, members) in structures {
        types.push(TypeDefinition {
            name: name.to_string(),
            size: *size,
            shape: Shape::Structure(
                members
                    .iter()
                    .map(|(name, offset, kind)| Member {
                        name: name.to_string(),
                        offset: *offset,
                        kind: *kind,
                    })
                    .collect(),
            ),
        });
    }
    context.tables.push(SymbolTable {
        name: name.to_string(),
        pointer_size: 8,
        source: None,
        types,
        symbols: Vec::new(),
    });
}

#[test]
fn callbacks_are_collected_and_attributed() {
    let mut image = two_processes();
    image.structure("_EX_FAST_REF", 8, &[("Object", 0, U64)]);
    image.types.push(integer("unsigned int", 4, false));
    image.symbol("PspLoadImageNotifyRoutine", 0x2000, U64);
    image.word(0x2008, 0x2100 | 0xf);
    image.word(0x2100, 0x7010);
    image.symbol("CmpCallBackCount", 0x2080, U32);
    image.put(0x2080, &[1]);
    image.symbol("CallbackListHead", 0x2200, U64);
    image.word(0x2200, 0x2240);
    image.word(0x2240, 0x2200);
    image.word(0x2250, 0x9999);
    image.put_unicode(0x2258, 0x2280, "320000");
    image.windows.code = Some(vec![CodeModule {
        name: "filter".to_string(),
        start: 0x7000,
        size: 0x100,
        symbols: Vec::new(),
    }]);
    let mut context = image.context();
    assert!(matches!(
        Callbacks.run(&context, &Configuration::new()),
        Err(VolatilityError::Unavailable)
    ));
    // The types of the list and of counted strings stand behind the first seven.
    with_table(
        &mut context,
        "callbacks-x64",
        &[
            ("_LIST_ENTRY", 16, &[("Flink", 0, U64), ("Blink", 8, U64)]),
            ("_UNICODE_STRING", 16, &[("Length", 0, U16), ("Buffer", 8, U64)]),
            ("_GENERIC_CALLBACK", 8, &[("Callback", 0, U64)]),
            ("_CM_CALLBACK_ENTRY", 40, &[("Link", 0, 7), ("Function", 16, U64), ("Altitude", 24, 8)]),
        ],
    );
    let rows = shown(&Callbacks.run(&context, &Configuration::new()).unwrap());
    assert_eq!(
        rows,
        vec![
            vec!["PspLoadImageNotifyRoutine", "0x7010", "filter", "-", "N/A"],
            vec!["CmRegisterCallbackEx", "0x9999", "-", "-", "Altitude: 320000"],
        ]
    );
}

#[test]
fn patched_functions_are_found_in_a_process() {
    let mut image = loaded_module();
    image.word(0x2210, 0x3000);
    image.put(0x2218, &0x800u32.to_le_bytes());
    image.put(0x3100, &[0xc3]);
    image.put(0x3140, &[0x4c, 0x8b, 0xd1]);
    let export = |name: &str, address: u32| Export { name: name.to_string(), address };
    image.windows.read_exports.push(ReadExports {
        layer: 0,
        base: 0x3000,
        length: 0x800,
        exports: vec![
            export("EtwEventWrite", 0x100),
            export("NtTraceEvent", 0x140),
            export("NtClose", 0x100),
        ],
    });
    assert_eq!(
        report(EtwPatch, image),
        vec![vec!["600", "smss.exe", "ntdll.dll", "EtwEventWrite", "0x3100", "ret"]]
    );
}

#[test]
fn exports_behind_what_is_read_of_a_module_are_unknown() {
    let image = |size: u32| {
        let mut image = loaded_module();
        image.word(0x2210, 0x3000);
        image.put(0x2218, &size.to_le_bytes());
        image.put(0x3100, &[0xc3]);
        for length in [0x800, 0x400000] {
            image.windows.read_exports.push(ReadExports {
                layer: 0,
                base: 0x3000,
                length,
                exports: vec![Export { name: "EtwEventWrite".to_string(), address: 0x100 }],
            });
        }
        image
    };
    assert_eq!(report(EtwPatch, image(0x800)).len(), 1);
    assert!(report(EtwPatch, image(0x400)).is_empty());
    // No more than this is read of any module.
    assert_eq!(report(EtwPatch, image(0x500000)).len(), 1);
}

#[test]
fn both_modules_that_log_are_examined() {
    for (module, found) in [("ADVAPI32.dll", 1), ("ntdll.DLL", 1), ("kernel32.dll", 0)] {
        let mut image = loaded_module();
        image.word(0x2210, 0x3000);
        image.put(0x2218, &0x800u32.to_le_bytes());
        image.put_unicode(0x2230, 0x2380, module);
        image.put(0x3100, &[0xc3]);
        image.windows.read_exports.push(ReadExports {
            layer: 0,
            base: 0x3000,
            length: 0x800,
            exports: vec![Export { name: "EtwEventWrite".to_string(), address: 0x100 }],
        });
        let rows = report(EtwPatch, image);
        assert_eq!(rows.len(), found, "{}", module);
        if found == 1 {
            assert_eq!(rows[0], ["600", "smss.exe", module, "EtwEventWrite", "0x3100", "ret"]);
        }
    }
}

#[test]
fn console_hosts_are_searched_for_commands() {
    let mut image = Image::new();
    image.processes(&[(900, 4, "Conhost.exe"), (901, 4, "cmd.exe")]);
    image.own_memory(0x1100, 0x2000);
    image.own_memory(0x1200, 0x2000);
    for process in [0x1100, 0x1200] {
        for (start, protection) in [(0x3000, "PAGE_READWRITE"), (0x3800, "PAGE_READONLY")] {
            image.windows.vads.push(Vad {
                process,
                start: Some(start),
                end: Some(start + 0xff),
                file_name: None,
                protection: Some(protection.to_string()),
                control_area: None,
                file_object: None,
            });
        }
    }
    let mut at = 0x3010;
    for command in ["whoami", "dir", "exit"] {
        let units: Vec<u8> = command.encode_utf16().flat_map(|unit| unit.to_le_bytes()).collect();
        image.put(at, &(units.len() as u16).to_le_bytes());
        image.put(at + 2, &(units.len() as u16).to_le_bytes());
        image.put(at + 4, &units);
        at += 4 + units.len() as u64;
    }
    let value = RegistryValue {
        name: Some("HistoryBufferSize".to_string()),
        data: Some(2u32.to_le_bytes().to_vec()),
        decoded: None,
    };
    image.windows.hives = Some(vec![Hive {
        name: Some("NTUSER.DAT".to_string()),
        root: Some(key("", vec![key("Console", Vec::new(), vec![value])], Vec::new())),
    }]);
    let context = image.context();
    let mut config = Configuration::new();
    let rows = shown(&Consoles.run(&context, &config).unwrap());
    let commands: Vec<&str> = rows.iter().map(|row| row[5].as_str()).collect();
    assert_eq!(commands, vec!["whoami", "dir", "exit"]);
    assert_eq!(rows[0][..5], ["900", "Conhost.exe", "0x3010", "HistoryBuffer", "0x3010"]);
    // The larger of the sizes asked for and the recorded one counts.
    config.set("max_history", ConfigValue::List(vec![ConfigValue::Int(1)]));
    assert_eq!(CmdScan.run(&context, &config).unwrap().lines.len(), 2);
    config.set("no_registry", ConfigValue::Bool(true));
    assert_eq!(CmdScan.run(&context, &config).unwrap().lines.len(), 1);
}

#[test]
fn a_listener_is_reported_for_both_families() {
    let mut image = two_processes();
    let quad = image.types.iter().position(|kind| kind.name == "_LARGE_INTEGER").unwrap();
    let process = image.types.iter().position(|kind| kind.name == "_EPROCESS").unwrap();
    let family = image.structure("_INETAF", 4, &[("AddressFamily", 0, U16)]);
    let to_family = image.pointer(family);
    let to_process = image.pointer(process);
    let listener = image.structure(
        "_TCP_LISTENER",
        40,
        &[("InetAF", 0, to_family), ("Owner", 8, to_process), ("Port", 16, U16), ("CreateTime", 24, quad)],
    );
    image.word(0x2000, 0x2100);
    image.word(0x2008, 0x1200);
    image.put(0x2010, &445u16.to_le_bytes());
    image.word(0x2018, NEW_YEAR);
    image.put(0x2100, &[23]);
    image.windows.sound_processes.push(0x1200);
    let object = image.object(listener, 0x2000);
    let context = image.context();
    let rows: Vec<Vec<String>> = rows_for(&context, object, false)
        .iter()
        .map(|row| row.values.iter().map(|value| value.show()).collect())
        .collect();
    let time = "2020-01-01 00:00:00+00:00";
    assert_eq!(
        rows,
        vec![
            vec!["0x2000", "TCPv4", "0.0.0.0", "445", "0.0.0.0", "0", "LISTENING", "600", "smss.exe", time],
            vec!["0x2000", "TCPv6", "::", "445", "::", "0", "LISTENING", "600", "smss.exe", time],
        ]
    );
}

#[test]
fn symbols_are_resolved_in_the_order_of_the_sources() {
    let mut image = two_processes();
    image.own_memory(0x1200, 0x2000);
    image.windows.vads.push(Vad {
        process: 0x1200,
        start: Some(0x3000),
        end: Some(0x3fff),
        file_name: Some("\\Windows\\System32\\NTDLL.dll".to_string()),
        protection: None,
        control_area: None,
        file_object: None,
    });
    image.windows.pe_images.push(PeImage {
        layer: 0,
        base: 0x3000,
        size_of_image: 0x1000,
        time_date_stamp: 0,
        major_operating_system_version: 10,
        minor_operating_system_version: 0,
        machine_value: 0x8664,
        exports: Some(vec![
            Export { name: "NtClose".to_string(), address: 0x10 },
            Export { name: "NtOpen".to_string(), address: 0x20 },
        ]),
        imports: None,
    });
    image.windows.records.push(DebugRecord {
        layer: 0,
        address: 0x3800,
        pdb_name: "ntdll.pdb".to_string(),
        guid: "ab12".to_string(),
        age: 1,
    });
    image.windows.published.push(PublishedSymbols {
        name: "ntdll.pdb".to_string(),
        guid: "ab12".to_string(),
        age: 1,
        symbols: vec![NamedPlace { name: "NtClose".to_string(), address: 0x18 }],
    });
    let context = image.context();
    let mut config = Configuration::new();
    config.set("module", ConfigValue::Str("NTDLL.DLL".to_string()));
    // Nothing is asked for.
    assert!(PeSymbols.run(&context, &config).unwrap().lines.is_empty());
    let names = ["NtOpen", "NtClose", "NtMissing"];
    config.set(
        "symbols",
        ConfigValue::List(names.iter().map(|name| ConfigValue::Str(name.to_string())).collect()),
    );
    assert_eq!(
        shown(&PeSymbols.run(&context, &config).unwrap()),
        vec![vec!["ntdll.dll", "NtClose", "0x3018"], vec!["ntdll.dll", "NtOpen", "0x3020"]]
    );
}

#[test]
fn cached_files_are_recovered_page_by_page() {
    let mut image = two_processes();
    let unicode = image.types.iter().position(|kind| kind.name == "_UNICODE_STRING").unwrap();
    let device = image.structure("_DEVICE_OBJECT", 8, &[("DeviceType", 0, U32)]);
    let to_device = image.pointer(device);
    let pointers = image.structure("_SECTION_OBJECT_POINTERS", 24, &[("DataSectionObject", 0, U64)]);
    let to_pointers = image.pointer(pointers);
    image.structure(
        "_FILE_OBJECT",
        40,
        &[("DeviceObject", 0, to_device), ("SectionObjectPointer", 8, to_pointers), ("FileName", 16, unicode)],
    );
    let segment = image.structure(
        "_SEGMENT",
        24,
        &[("ControlArea", 0, U64), ("TotalNumberOfPtes", 8, U32), ("SizeOfSegment", 16, U64)],
    );
    let to_segment = image.pointer(segment);
    let bits = |image: &mut Image, position: u64, length: u64| {
        image.define("bits", 8, Shape::Bits { size: 8, position, length })
    };
    let image_bit = bits(&mut image, 5, 1);
    let flags = image.structure("flags", 4, &[("Image", 0, image_bit)]);
    let union = image.structure("union", 8, &[("Flags", 0, flags)]);
    image.structure("_CONTROL_AREA", 24, &[("Segment", 0, to_segment), ("u", 8, union)]);
    image.structure(
        "_SUBSECTION",
        40,
        &[
            ("ControlArea", 0, U64),
            ("StartingSector", 8, U32),
            ("PtesInSubsection", 12, U32),
            ("SubsectionBase", 16, U64),
            ("NextSubsection", 24, U64),
        ],
    );
    let (valid, transition, frame) =
        (bits(&mut image, 0, 1), bits(&mut image, 11, 1), bits(&mut image, 12, 36));
    let hard = image.structure("hard", 8, &[("Valid", 0, valid), ("PageFrameNumber", 0, frame)]);
    let trans = image.structure("trans", 8, &[("Transition", 0, transition), ("PageFrameNumber", 0, frame)]);
    let entry = image.structure("entry", 8, &[("Hard", 0, hard), ("Trans", 0, trans)]);
    image.structure("_MMPTE", 8, &[("u", 0, entry)]);
    image.headers();

    image.word(0x2000, 0x2100);
    image.word(0x2008, 0x2140);
    image.put_unicode(0x2010, 0x2180, "\\a\\b.txt");
    image.put(0x2100, &[7]);
    image.word(0x2140, 0x2200);
    image.word(0x2200, 0x2280);
    image.word(0x2280, 0x2200);
    image.put(0x2288, &3u32.to_le_bytes());
    image.word(0x2290, 0x3000);
    image.word(0x2218, 0x2200);
    image.put(0x2224, &3u32.to_le_bytes());
    image.word(0x2228, 0x22c0);
    // The first page is mapped, the second is gone, the third is on its way out.
    image.word(0x22c0, 0x3001);
    image.word(0x22d0, 0x4800);
    image.put(0x3000, b"first");
    image.put(0x4000, b"third");
    let mut context = image.context();
    let mut config = Configuration::new();
    config.set("virtaddr", ConfigValue::List(vec![ConfigValue::Int(0x2000)]));
    let grid = DumpFiles.run(&context, &config).unwrap();
    let name = "file.0x2000.0x2200.DataSectionObject.b.txt.dat";
    assert_eq!(shown(&grid), vec![vec!["DataSectionObject", "0x2000", "b.txt", name]]);
    let data = &grid.files[0].data;
    assert_eq!(data.len(), 0x3000);
    assert_eq!((&data[..5], &data[0x1000..0x1005], &data[0x2000..0x2005]), (&b"first"[..], &[0u8; 5][..], &b"third"[..]));

    // Asking by name and by address at once has no answer.
    config.set("filter", ConfigValue::Str("txt".to_string()));
    assert_eq!(
        words_of(DumpFiles.run(&context, &config).unwrap_err()),
        "Cannot use filter flag with an address flag"
    );
    let mut config = Configuration::new();
    config.set("filter", ConfigValue::Str("(".to_string()));
    let error = words_of(DumpFiles.run(&context, &config).unwrap_err());
    assert!(error.starts_with("Could not compile the filter: "));
    assert!(error.len() > "Could not compile the filter: ".len());

    // A mapped file is found through the process, and recovered once.
    let kind = context.tables[0].types.iter().position(|kind| kind.name == "_FILE_OBJECT").unwrap();
    let file = Object { kind: TypeId { table: 0, index: kind }, layer: 0, native: 0, offset: 0x2000 };
    for _ in 0..2 {
        context.windows.vads.push(Vad {
            process: 0x1200,
            start: None,
            end: None,
            file_name: None,
            protection: None,
            control_area: Some(file),
            file_object: Some(file),
        });
    }
    config.set("filter", ConfigValue::Str("B\\.TXT$".to_string()));
    assert!(DumpFiles.run(&context, &config).unwrap().lines.is_empty());
    config.set("ignore-case", ConfigValue::Bool(true));
    assert_eq!(DumpFiles.run(&context, &config).unwrap().lines.len(), 1);
}

#[test]
fn an_address_is_named_by_the_first_file_mapped_over_it() {
    let range = |start: u64, size: u64, path: &str| MappedRange { start, size, path: path.to_string() };
    let ranges = vec![range(0x1000, 0x100, "a"), range(0x1080, 0x100, "b"), range(u64::MAX, 1, "c")];
    assert_eq!(file_for_address(&ranges, 0x10ff), Some("a"));
    assert_eq!(file_for_address(&ranges, 0x1100), Some("b"));
    assert_eq!(file_for_address(&ranges, 0xfff), None);
    assert_eq!(file_for_address(&ranges, u64::MAX), Some("c"));
}

#[test]
fn a_file_is_named_by_the_end_of_its_path() {
    assert_eq!(file_name("\\Windows\\System32\\NTDLL.dll"), "ntdll.dll");
    assert_eq!(file_name("C:/X/\u{c9}.DLL"), "\u{e9}.dll");
    assert_eq!(file_name("a\\"), "");
}
