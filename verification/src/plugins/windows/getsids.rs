//! Report whom the tokens of processes stand for.

use crate::config::Configuration;
use crate::context::{self, find_named, Context, Object};
use crate::error::{Failure, VolatilityError};
use crate::plugins::{self, OperatingSystem, Plugin, Requirement, RequirementView};
use crate::plugins::windows::{chosen_processes, kernel_module};
use crate::renderers::{Cell, Column, Row, Table, TreeGrid, Value};
use crate::symbols;
use crate::symbols::registry::{descend, Hive, RegistryKey, RegistryValue};
use crate::symbols::security::{Security, SidName};
use crate::text::{self, ascii_lower, assemble, characters, contains, rfind, same_text, trim_end};
use vstd::prelude::*;

verus! {

/// Reports whom the tokens of processes stand for.
pub struct GetSids;

/// Where in the software hive the profiles are.
pub open spec fn profile_path() -> Seq<&'static str> {
    seq!["Microsoft", "Windows NT", "CurrentVersion", "ProfileList"]
}

/// Accounts and their names.
pub open spec fn account_views(list: Seq<SidName>) -> Seq<(Seq<char>, Seq<char>)> {
    Seq::new(list.len(), |i: int| (list[i].sid@, list[i].name@))
}

/// What stands behind the last backslash of a path.
pub open spec fn behind_backslash(path: Seq<char>) -> Seq<char> {
    match text::last_index(path, '\\') {
        Some(at) => path.subrange(at + 1, path.len() as int),
        None => path,
    }
}

fn part_behind_backslash(path: &str) -> (part: String)
    ensures
        part@ == behind_backslash(path@),
{
    let list = characters(path);
    let total: usize = list.len();
    let from: usize = match rfind(list.as_slice(), '\\') {
        Some(at) => at + 1,
        None => 0,
    };
    let part = assemble(list.as_slice(), from, total);
    assert(part@ =~= behind_backslash(path@));
    part
}

/// Some accounts, and one for each path that the first values of a profile hold.
/// The last part of the path is the name a person would recognise.
pub open spec fn with_profile(
    accounts: Seq<(Seq<char>, Seq<char>)>,
    identifier: Seq<char>,
    values: Seq<RegistryValue>,
    count: int,
) -> Seq<(Seq<char>, Seq<char>)>
    decreases count,
{
    if count <= 0 {
        accounts
    } else {
        let before = with_profile(accounts, identifier, values, count - 1);
        match (values[count - 1].name, values[count - 1].decoded) {
            (Some(name), Some(path)) => if name@ == "ProfileImagePath"@ {
                before.push(
                    (
                        identifier,
                        behind_backslash(text::trimmed_end(path@, '\0')),
                    ),
                )
            } else {
                before
            },
            _ => before,
        }
    }
}

fn add_profile(accounts: &mut Vec<SidName>, identifier: &str, values: &Vec<RegistryValue>)
    ensures
        account_views(final(accounts)@) == with_profile(
            account_views(old(accounts)@),
            identifier@,
            values@,
            values@.len() as int,
        ),
{
    let ghost start = account_views(accounts@);
    for i in 0..values.len()
        invariant
            account_views(accounts@) == with_profile(start, identifier@, values@, i as int),
    {
        if let Some(name) = &values[i].name {
            if let Some(path) = &values[i].decoded {
                if same_text(name, "ProfileImagePath") {
                    let ghost before = account_views(accounts@);
                    let account = SidName {
                        sid: identifier.to_owned(),
                        name: part_behind_backslash(&trim_end(path, '\0')),
                    };
                    let ghost said = (account.sid@, account.name@);
                    accounts.push(account);
                    assert(account_views(accounts@) =~= before.push(said));
                }
            }
        }
    }
}

/// Some accounts, and those of the first of some profiles. Each profile is named
/// after the account it belongs to.
pub open spec fn with_profiles(
    accounts: Seq<(Seq<char>, Seq<char>)>,
    profiles: Seq<RegistryKey>,
    count: int,
) -> Seq<(Seq<char>, Seq<char>)>
    decreases count,
{
    if count <= 0 {
        accounts
    } else {
        let before = with_profiles(accounts, profiles, count - 1);
        match profiles[count - 1].name {
            Some(identifier) => with_profile(
                before,
                identifier@,
                profiles[count - 1].values@,
                profiles[count - 1].values@.len() as int,
            ),
            None => before,
        }
    }
}

fn add_profiles(accounts: &mut Vec<SidName>, profiles: &Vec<RegistryKey>)
    ensures
        account_views(final(accounts)@) == with_profiles(
            account_views(old(accounts)@),
            profiles@,
            profiles@.len() as int,
        ),
{
    let ghost start = account_views(accounts@);
    for i in 0..profiles.len()
        invariant
            account_views(accounts@) == with_profiles(start, profiles@, i as int),
    {
        if let Some(identifier) = &profiles[i].name {
            add_profile(accounts, identifier, &profiles[i].values);
        }
    }
}

/// Whether a hive's name has a part, however it is written.
pub open spec fn is_hive(hive: Hive, part: Seq<char>) -> bool {
    text::holds(
        text::lower(
            match hive.name {
                Some(name) => name@,
                None => Seq::empty(),
            },
        ),
        part,
    )
}

/// Whether a hive's name has a part, however it is written.
pub fn hive_is_called(hive: &Hive, part: &str) -> (called: bool)
    ensures
        called == is_hive(*hive, part@),
{
    match &hive.name {
        Some(name) => contains(&ascii_lower(name), part),
        None => {
            let none = String::new();
            let lower = ascii_lower(&none);
            assert(lower@ =~= text::lower(Seq::empty()));
            contains(&lower, part)
        },
    }
}

/// Some accounts, and those that a hive names. Only the software hive carries the
/// profile list.
pub open spec fn with_hive(accounts: Seq<(Seq<char>, Seq<char>)>, hive: Hive) -> Seq<
    (Seq<char>, Seq<char>),
> {
    match hive.root {
        Some(root) => if is_hive(hive, "config\\software"@) {
            match symbols::registry::descended(
                root,
                profile_path(),
                profile_path().len() as int,
            ) {
                Some(key) => with_profiles(accounts, key.subkeys@, key.subkeys@.len() as int),
                None => accounts,
            }
        } else {
            accounts
        },
        None => accounts,
    }
}

fn add_hive(accounts: &mut Vec<SidName>, hive: &Hive)
    ensures
        account_views(final(accounts)@) == with_hive(account_views(old(accounts)@), *hive),
{
    if let Some(root) = &hive.root {
        if hive_is_called(hive, "config\\software") {
            let path: [&str; 4] = ["Microsoft", "Windows NT", "CurrentVersion", "ProfileList"];
            assert(path@ =~= profile_path());
            if let Some(key) = descend(root, &path) {
                add_profiles(accounts, &key.subkeys);
            }
        }
    }
}

/// The accounts that the first of some hives name.
pub open spec fn accounts_in(hives: Seq<Hive>, count: int) -> Seq<(Seq<char>, Seq<char>)>
    decreases count,
{
    if count <= 0 {
        Seq::empty()
    } else {
        with_hive(accounts_in(hives, count - 1), hives[count - 1])
    }
}

/// The users this machine knows, as its registry names them.
pub open spec fn known_accounts(context: &Context) -> Seq<(Seq<char>, Seq<char>)> {
    match context.windows.hives {
        Some(hives) => accounts_in(hives@, hives@.len() as int),
        None => Seq::empty(),
    }
}

/// The users this machine knows, as its registry names them.
///
/// Each profile is a subkey named after the account's identifier, holding the
/// path of that account's profile directory.
pub fn user_names(context: &Context) -> (accounts: Vec<SidName>)
    ensures
        account_views(accounts@) == known_accounts(context),
{
    let mut accounts: Vec<SidName> = Vec::new();
    assert(account_views(accounts@) =~= Seq::<(Seq<char>, Seq<char>)>::empty());
    if let Some(hives) = &context.windows.hives {
        for i in 0..hives.len()
            invariant
                account_views(accounts@) == accounts_in(hives@, i as int),
        {
            add_hive(&mut accounts, &hives[i]);
        }
    }
    accounts
}

/// The name that the first of some accounts give an identifier: the last one.
pub open spec fn account_named(
    accounts: Seq<(Seq<char>, Seq<char>)>,
    sid: Seq<char>,
    count: int,
) -> Option<Seq<char>>
    decreases count,
{
    if count <= 0 {
        None
    } else if accounts[count - 1].0 == sid {
        Some(accounts[count - 1].1)
    } else {
        account_named(accounts, sid, count - 1)
    }
}

fn find_account(accounts: &Vec<SidName>, sid: &str) -> (name: Option<String>)
    ensures
        text::maybe_text(name) == account_named(
            account_views(accounts@),
            sid@,
            accounts@.len() as int,
        ),
{
    let mut i: usize = accounts.len();
    while i > 0
        invariant
            i <= accounts@.len(),
            account_named(account_views(accounts@), sid@, accounts@.len() as int)
                == account_named(account_views(accounts@), sid@, i as int),
        decreases i,
    {
        if same_text(&accounts[i - 1].sid, sid) {
            return Some(accounts[i - 1].name.clone());
        }
        i = i - 1;
    }
    None
}

/// The name that a list gives an identifier.
pub open spec fn listed_name(list: Seq<SidName>, sid: Seq<char>) -> Option<Seq<char>> {
    match context::named(list, sid) {
        Some(found) => Some(found.name@),
        None => None,
    }
}

fn find_listed(list: &Vec<SidName>, sid: &str) -> (name: Option<String>)
    ensures
        text::maybe_text(name) == listed_name(list@, sid@),
{
    proof {
        context::lemma_named_from(list@, sid@, 0);
    }
    match find_named(list, sid) {
        Some(at) => Some(list[at].name.clone()),
        None => None,
    }
}

/// Whom an identifier stands for: a fixed identifier first, then the service
/// accounts, then the users the registry names, and finally the patterns for
/// identifiers that carry a domain in the middle.
pub open spec fn resolved(
    security: &Security,
    accounts: Seq<(Seq<char>, Seq<char>)>,
    sid: Seq<char>,
) -> Cell {
    match listed_name(security.well_known@, sid) {
        Some(name) => Cell::Text(name),
        None => match listed_name(security.services@, sid) {
            Some(name) => Cell::Text(name),
            None => match account_named(accounts, sid, accounts.len() as int) {
                Some(name) => Cell::Text(name),
                None => match listed_name(security.patterned@, sid) {
                    Some(name) => Cell::Text(name),
                    None => Cell::not_available(),
                },
            },
        },
    }
}

/// Whom an identifier stands for.
pub fn resolve(security: &Security, accounts: &Vec<SidName>, sid: &str) -> (value: Value)
    ensures
        value@ == resolved(security, account_views(accounts@), sid@),
{
    match find_listed(&security.well_known, sid) {
        Some(name) => Value::String(name),
        None => match find_listed(&security.services, sid) {
            Some(name) => Value::String(name),
            None => match find_account(accounts, sid) {
                Some(name) => Value::String(name),
                None => match find_listed(&security.patterned, sid) {
                    Some(name) => Value::String(name),
                    None => Value::not_available(),
                },
            },
        },
    }
}

/// A report with the first identifiers of a process's token.
pub open spec fn with_sids(
    security: &Security,
    accounts: Seq<(Seq<char>, Seq<char>)>,
    table: Table,
    pid: u64,
    name: Seq<char>,
    sids: Seq<Seq<char>>,
    count: int,
) -> Table
    decreases count,
{
    if count <= 0 {
        table
    } else {
        with_sids(security, accounts, table, pid, name, sids, count - 1).push(
            0,
            seq![
                Cell::integer(pid as i64),
                Cell::Text(name),
                Cell::Text(sids[count - 1]),
                resolved(security, accounts, sids[count - 1]),
            ],
        )
    }
}

/// A report with the identifiers of one more process.
#[verifier::opaque]
pub open spec fn with_process(
    context: &Context,
    accounts: Seq<(Seq<char>, Seq<char>)>,
    table: Table,
    process: Object,
) -> Table {
    match (
        context.pid(process),
        symbols::security::token_from(context.windows.security.tokens@, process.offset, 0),
    ) {
        (Some(pid), Some(token)) => with_sids(
            &context.windows.security,
            accounts,
            table,
            pid,
            context.image_name_or_empty(process),
            text::texts(token.sids@),
            token.sids@.len() as int,
        ),
        _ => table,
    }
}

fn add_process(context: &Context, accounts: &Vec<SidName>, grid: &mut TreeGrid, process: Object)
    ensures
        final(grid)@ == with_process(
            context,
            account_views(accounts@),
            old(grid)@,
            process,
        ),
{
    reveal(with_process);
    let ghost before = grid@;
    let ghost known = account_views(accounts@);
    let security = &context.windows.security;
    if let (Some(pid), Some(token)) = (context.pid(process), security.token(process.offset)) {
        let name = context.image_file_name_or_empty(process);
        for i in 0..token.sids.len()
            invariant
                known == account_views(accounts@),
                grid@ == with_sids(
                    security,
                    known,
                    before,
                    pid,
                    name@,
                    text::texts(token.sids@),
                    i as int,
                ),
        {
            let row = Row::new().with(Value::integer(pid as i64)).with(Value::string(&name)).with(
                Value::string(&token.sids[i]),
            ).with(resolve(security, accounts, &token.sids[i]));
            assert(row@ =~= seq![
                Cell::integer(pid as i64),
                Cell::Text(name@),
                Cell::Text(text::texts(token.sids@)[i as int]),
                resolved(security, known, text::texts(token.sids@)[i as int]),
            ]);
            grid.push(0, row);
        }
    }
}

/// The report on the first of some processes.
pub open spec fn reported(
    context: &Context,
    headings: Seq<Column>,
    processes: Seq<Object>,
    count: int,
) -> Table
    decreases count,
{
    if count <= 0 {
        Table::empty(headings)
    } else {
        with_process(
            context,
            known_accounts(context),
            reported(context, headings, processes, count - 1),
            processes[count - 1],
        )
    }
}

impl Plugin for GetSids {
    open spec fn named(&self) -> Seq<char> {
        "windows.getsids.GetSIDs"@
    }

    open spec fn described(&self) -> Seq<char> {
        "Print the SIDs owning each process"@
    }

    open spec fn needs(&self) -> Seq<RequirementView> {
        seq![RequirementView::kernel(), RequirementView::pid_filter("Filter on specific process IDs"@)]
    }

    open spec fn headings(&self) -> Seq<Column> {
        seq![
            Column::integer("PID"),
            Column::string("Process"),
            Column::string("SID"),
            Column::string("Name"),
        ]
    }

    open spec fn system(&self) -> OperatingSystem {
        OperatingSystem::Windows
    }

    open spec fn report(&self, context: &Context, config: &Configuration) -> Result<Table, Failure> {
        match plugins::windows::kernel_of(context, config) {
            Some(kernel) => match plugins::windows::chosen(context, &kernel, config) {
                Some(processes) => Ok(
                    reported(context, self.headings(), processes, processes.len() as int),
                ),
                None => Err(Failure::Unavailable),
            },
            None => Err(plugins::windows::no_kernel()),
        }
    }

    fn name(&self) -> (name: &'static str) {
        "windows.getsids.GetSIDs"
    }

    fn description(&self) -> (description: &'static str) {
        "Print the SIDs owning each process"
    }

    fn requirements(&self) -> (requirements: Vec<Requirement>) {
        vec![Requirement::kernel(), Requirement::pid_filter("Filter on specific process IDs")]
    }

    fn operating_system(&self) -> (system: OperatingSystem) {
        OperatingSystem::Windows
    }

    fn columns(&self) -> (columns: Vec<Column>) {
        vec![
            Column::integer("PID"),
            Column::string("Process"),
            Column::string("SID"),
            Column::string("Name"),
        ]
    }

    fn epilog(&self) -> (epilog: Option<&'static str>) {
        None
    }

    fn timeline(&self, context: &Context, config: &Configuration) -> (timeline: Option<
        plugins::Timeline,
    >) {
        None
    }

    fn needs_kernel(&self) -> (needed: bool) {
        false
    }

    fn run(&self, context: &Context, config: &Configuration) -> (result: Result<TreeGrid, VolatilityError>) {
        let kernel = kernel_module(context, config)?;
        // The users a machine knows are named in its registry.
        let accounts = user_names(context);
        let processes = chosen_processes(context, kernel, config)?;
        let mut grid = TreeGrid::new(self.columns());
        let ghost headings = self.headings();
        for i in 0..processes.len()
            invariant
                account_views(accounts@) == known_accounts(context),
                grid@ == reported(context, headings, processes@, i as int),
        {
            add_process(context, &accounts, &mut grid, processes[i]);
        }
        Ok(grid)
    }
}

} // verus!
