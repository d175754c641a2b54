//! Work out the security identifiers of services.
//!
//! Windows gives each service an identifier that is made from a digest of its
//! name, so the identifiers of all services that the registry names can be
//! worked out, and those in tokens recognised by them.

use crate::config::Configuration;
use crate::context::{self, word_of, Context};
use crate::digest::{self, sha1_digest};
use crate::error::{Failure, VolatilityError};
use crate::plugins::{self, OperatingSystem, Plugin, Requirement, RequirementView};
use crate::plugins::windows::kernel_module;
use crate::plugins::windows::getsids::hive_is_called;
use crate::renderers::{Cell, Column, Row, Table, TreeGrid, Value};
use crate::symbols;
use crate::symbols::registry::{descend, Hive, RegistryKey};
use crate::text::{self, bytes_of_units, decimal, encode_utf16, join, push_text, uppercase};
use vstd::prelude::*;

verus! {

/// Works out the security identifiers of services.
pub struct GetServiceSids;

/// The parts of an identifier that a digest gives: five 32-bit numbers, the low
/// byte of each first.
pub open spec fn authorities(digest: Seq<u8>) -> Seq<Seq<char>> {
    Seq::new(
        digest.len() / 4,
        |i: int| text::decimal_text(context::word(digest.subrange(4 * i, 4 * i + 4)) as int),
    )
}

/// The identifier of the service whose name in upper case is given. The name is
/// hashed as UTF-16, which is how Windows canonicalises it before hashing.
pub open spec fn sid_of(upper: Seq<char>) -> Seq<char> {
    sid_text(digest::sha1_of(text::unit_bytes(text::encoded(upper, upper.len() as int))))
}

/// The identifier that a digest of a service's name gives.
pub open spec fn sid_text(digest: Seq<u8>) -> Seq<char> {
    "S-1-5-80-"@ + text::joined(authorities(digest), "-"@)
}

/// The identifier that a digest of a service's name gives.
pub fn sid_of_digest(digest: &[u8]) -> (sid: String)
    requires
        digest@.len() == 20,
    ensures
        sid@ == sid_text(digest@),
{
    let mut parts: Vec<String> = Vec::new();
    let total: usize = digest.len();
    assert(text::texts(parts@) =~= authorities(digest@).take(0));
    for i in 0..total / 4
        invariant
            total == digest@.len(),
            total == 20,
            text::texts(parts@) =~= authorities(digest@).take(i as int),
    {
        let part = decimal(word_of(vstd::slice::slice_subrange(digest, 4 * i, 4 * i + 4)));
        assert(part@ == authorities(digest@)[i as int]);
        push_text(&mut parts, part);
    }
    assert(text::texts(parts@) =~= authorities(digest@));
    let mut sid = "S-1-5-80-".to_owned();
    sid.append(&join(&parts, "-"));
    sid
}

/// Compute the service SID for a service name. Its letters count the same in
/// either case.
pub fn service_sid(name: &str) -> (sid: String)
    ensures
        sid@ == sid_of(text::uppercase_text(name@)),
        text::is_ascii(name@) ==> sid@ == sid_of(text::upper(name@)),
{
    let upper = uppercase(name);
    let bytes = bytes_of_units(&encode_utf16(&upper));
    sid_of_digest(sha1_digest(bytes.as_slice()).as_slice())
}

proof fn lemma_cases(a: char, b: char)
    requires
        text::lower_char(a) == text::lower_char(b),
    ensures
        text::upper_char(a) == text::upper_char(b),
{
    assert('A' <= a <= 'Z' ==> (a as u32 + 32) as char as int == a as int + 32);
    assert('A' <= b <= 'Z' ==> (b as u32 + 32) as char as int == b as int + 32);
}

/// A service has the same identifier however the ASCII letters of its name are
/// written.
pub proof fn law_case_does_not_matter(a: Seq<char>, b: Seq<char>)
    requires
        text::lower(a) == text::lower(b),
    ensures
        sid_of(text::upper(a)) == sid_of(text::upper(b)),
{
    assert(text::lower(a).len() == a.len());
    assert(text::lower(b).len() == b.len());
    assert forall|i: int| 0 <= i < a.len() implies text::upper_char(a[i]) == text::upper_char(
        b[i],
    ) by {
        assert(text::lower(a)[i] == text::lower_char(a[i]));
        assert(text::lower(b)[i] == text::lower_char(b[i]));
        lemma_cases(a[i], b[i]);
    }
    assert(text::upper(a) =~= text::upper(b));
}

/// Where services are named: under whichever control set the machine last booted
/// from.
pub open spec fn services_key(root: RegistryKey) -> Option<RegistryKey> {
    match symbols::registry::descended(root, seq!["CurrentControlSet", "Services"], 2) {
        Some(key) => Some(key),
        None => symbols::registry::descended(root, seq!["ControlSet001", "Services"], 2),
    }
}

fn find_services(root: &RegistryKey) -> (key: Option<&RegistryKey>)
    ensures
        match key {
            Some(key) => services_key(*root) == Some(*key),
            None => services_key(*root) is None,
        },
{
    let current: [&str; 2] = ["CurrentControlSet", "Services"];
    assert(current@ =~= seq!["CurrentControlSet", "Services"]);
    match descend(root, &current) {
        Some(key) => Some(key),
        None => {
            let first: [&str; 2] = ["ControlSet001", "Services"];
            assert(first@ =~= seq!["ControlSet001", "Services"]);
            descend(root, &first)
        },
    }
}

/// A report with the first of some services. A service the well-known table
/// already names is left to it.
pub open spec fn with_services(
    known: Seq<Seq<char>>,
    table: Table,
    services: Seq<RegistryKey>,
    count: int,
) -> Table
    decreases count,
{
    if count <= 0 {
        table
    } else {
        let before = with_services(known, table, services, count - 1);
        match services[count - 1].name {
            Some(name) => if known.contains(name@) {
                before
            } else {
                before.push(
                    0,
                    seq![
                        Cell::Text(sid_of(text::uppercase_text(name@))),
                        Cell::Text(name@),
                    ],
                )
            },
            None => before,
        }
    }
}

fn add_services(context: &Context, grid: &mut TreeGrid, services: &Vec<RegistryKey>)
    ensures
        final(grid)@ == with_services(
            text::texts(context.windows.security.known_services@),
            old(grid)@,
            services@,
            services@.len() as int,
        ),
{
    let ghost start = grid@;
    let security = &context.windows.security;
    let ghost known = text::texts(security.known_services@);
    for i in 0..services.len()
        invariant
            known == text::texts(security.known_services@),
            grid@ == with_services(known, start, services@, i as int),
    {
        if let Some(name) = &services[i].name {
            if !security.is_known_service(name) {
                let row = Row::new().with(Value::String(service_sid(name))).with(
                    Value::string(name),
                );
                assert(row@ =~= seq![
                    Cell::Text(sid_of(text::uppercase_text(name@))),
                    Cell::Text(name@),
                ]);
                grid.push(0, row);
            }
        }
    }
}

/// A report with the services of one more hive. They are named in the machine's
/// own hive.
pub open spec fn with_hive(known: Seq<Seq<char>>, table: Table, hive: Hive) -> Table {
    match hive.root {
        Some(root) => if plugins::windows::getsids::is_hive(hive, "machine\\system"@) {
            match services_key(root) {
                Some(key) => with_services(
                    known,
                    table,
                    key.subkeys@,
                    key.subkeys@.len() as int,
                ),
                None => table,
            }
        } else {
            table
        },
        None => table,
    }
}

fn add_hive(context: &Context, grid: &mut TreeGrid, hive: &Hive)
    ensures
        final(grid)@ == with_hive(
            text::texts(context.windows.security.known_services@),
            old(grid)@,
            *hive,
        ),
{
    if let Some(root) = &hive.root {
        if hive_is_called(hive, "machine\\system") {
            if let Some(key) = find_services(root) {
                add_services(context, grid, &key.subkeys);
            }
        }
    }
}

/// The report on the first of some hives.
pub open spec fn reported(
    known: Seq<Seq<char>>,
    headings: Seq<Column>,
    hives: Seq<Hive>,
    count: int,
) -> Table
    decreases count,
{
    if count <= 0 {
        Table::empty(headings)
    } else {
        with_hive(known, reported(known, headings, hives, count - 1), hives[count - 1])
    }
}

impl Plugin for GetServiceSids {
    open spec fn named(&self) -> Seq<char> {
        "windows.getservicesids.GetServiceSIDs"@
    }

    open spec fn described(&self) -> Seq<char> {
        "Lists process token sids."@
    }

    open spec fn needs(&self) -> Seq<RequirementView> {
        seq![RequirementView::kernel()]
    }

    open spec fn headings(&self) -> Seq<Column> {
        seq![Column::string("SID"), Column::string("Service")]
    }

    open spec fn system(&self) -> OperatingSystem {
        OperatingSystem::Windows
    }

    open spec fn report(&self, context: &Context, config: &Configuration) -> Result<Table, Failure> {
        match plugins::windows::kernel_of(context, config) {
            Some(_) => match context.windows.hives {
                Some(hives) => Ok(
                    reported(
                        text::texts(context.windows.security.known_services@),
                        self.headings(),
                        hives@,
                        hives@.len() as int,
                    ),
                ),
                None => Err(Failure::Unavailable),
            },
            None => Err(plugins::windows::no_kernel()),
        }
    }

    fn name(&self) -> (name: &'static str) {
        "windows.getservicesids.GetServiceSIDs"
    }

    fn description(&self) -> (description: &'static str) {
        "Lists process token sids."
    }

    fn requirements(&self) -> (requirements: Vec<Requirement>) {
        vec![Requirement::kernel()]
    }

    fn operating_system(&self) -> (system: OperatingSystem) {
        OperatingSystem::Windows
    }

    fn columns(&self) -> (columns: Vec<Column>) {
        vec![Column::string("SID"), Column::string("Service")]
    }

    fn epilog(&self) -> (epilog: Option<&'static str>) {
        None
    }

    fn timeline(&self, context: &Context, config: &Configuration) -> (timeline: Option<
        plugins::Timeline,
    >) {
        None
    }

    fn needs_kernel(&self) -> (needed: bool) {
        false
    }

    fn run(&self, context: &Context, config: &Configuration) -> (result: Result<TreeGrid, VolatilityError>) {
        let _kernel = kernel_module(context, config)?;
        let hives = match &context.windows.hives {
            Some(hives) => hives,
            None => return Err(VolatilityError::Unavailable),
        };
        let mut grid = TreeGrid::new(self.columns());
        let ghost headings = self.headings();
        let ghost known = text::texts(context.windows.security.known_services@);
        for i in 0..hives.len()
            invariant
                known == text::texts(context.windows.security.known_services@),
                grid@ == reported(known, headings, hives@, i as int),
        {
            add_hive(context, &mut grid, &hives[i]);
        }
        Ok(grid)
    }
}

} // verus!
