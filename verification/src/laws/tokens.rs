//! Laws on what is told of a process beyond its listing: its environment, the identifiers and
//! privileges of its token, and what its image imports.

use crate::config::Configuration;
use crate::context::{named_from, Context, Module, Object};
use crate::laws::modules::image_or_empty;
use crate::laws::processes::{number_of, peb_of};
use crate::laws::{
    adds, cells_of, flat, lemma_adds_none, lemma_adds_one, lemma_flat_adds, names_of,
};
use crate::plugins::windows::envars::{self, Envars};
use crate::plugins::windows::getsids::{self, GetSids};
use crate::plugins::windows::iat::{self, Iat};
use crate::plugins::windows::privileges::{self, Privileges};
use crate::plugins::windows::{chosen, kernel_of};
use crate::plugins::Plugin;
use crate::renderers::{Cell, Table};
use crate::symbols::security::{
    privilege_from, token_from, PrivilegeName, Security, SidName, Token, TokenPrivilege,
};
use crate::symbols::windows::Import;
use crate::text::{self, joined, next_index, texts};
use vstd::prelude::*;

verus! {

proof fn lemma_first(entry: Seq<char>, c: char, from: int, at: int)
    requires
        0 <= from <= at < entry.len(),
        entry[at] == c,
        forall|k: int| from <= k < at ==> entry[k] != c,
    ensures
        next_index(entry, c, from) == Some(at),
    decreases at - from,
{
    if from < at {
        lemma_first(entry, c, from + 1, at);
    }
}

/// An entry of the environment is a name, an equals sign and a value, and the first equals
/// sign is the one that counts.
pub proof fn law_a_variable_is_split_at_the_first_equals_sign(name: Seq<char>, value: Seq<char>)
    requires
        !name.contains('='),
    ensures
        name.len() > 0 && value.len() > 0 ==> envars::variable_of(
            name + seq!['='] + value,
        ) == Some((name, value)),
        name.len() == 0 || value.len() == 0 ==> envars::variable_of(
            name + seq!['='] + value,
        ) is None,
{
    let entry = name + seq!['='] + value;
    assert forall|k: int| 0 <= k < name.len() implies entry[k] != '=' by {
        assert(entry[k] == name[k]);
    }
    assert(entry[name.len() as int] == '=');
    lemma_first(entry, '=', 0, name.len() as int);
    assert(entry.subrange(0, name.len() as int) =~= name);
    assert(entry.subrange(name.len() as int + 1, entry.len() as int) =~= value);
}

/// The parameters that a process was started with.
pub open spec fn parameters_of(context: &Context, process: Object, layer: usize) -> Option<Object> {
    match peb_of(context, process, layer) {
        Some(peb) => context.member_target(peb, "ProcessParameters"),
        None => None,
    }
}

/// The environment of a process is the run of bytes that its parameters point at, as long as
/// they say, and is reported by where the pointer stands.
pub proof fn law_the_environment_is_where_the_parameters_say(
    context: &Context,
    process: Object,
    layer: usize,
    parameters: Object,
    pointer: Object,
    start: u64,
    size: u64,
    bytes: Seq<u8>,
)
    requires
        parameters_of(context, process, layer) == Some(parameters),
        context.member(parameters, "Environment") == Some(pointer),
        context.pointer_value(pointer) == Some(start),
        if context.has_member(parameters, "EnvironmentSize") {
            context.member_u64(parameters, "EnvironmentSize") == Some(size)
        } else {
            context.member_u64(parameters, "Length") == Some(size)
        },
        size <= usize::MAX,
        context.bytes_of(layer, start, size as usize, false) == Some(bytes),
    ensures
        envars::environment(context, process, layer) == Some(
            (pointer.offset, envars::variables(bytes)),
        ),
{
}

/// The rows of the variables of a process.
pub open spec fn parts_of_variables(
    context: &Context,
    process: Object,
    place: u64,
    list: Seq<(Seq<char>, Seq<char>)>,
) -> spec_fn(int) -> Seq<Seq<Cell>> {
    |j: int|
        seq![
            seq![
                Cell::integer(number_of(context, process)->0 as i64),
                Cell::Text(image_or_empty(context, process)),
                Cell::hex(place),
                Cell::Text(list[j].0),
                Cell::Text(list[j].1),
            ]
        ]
}

proof fn lemma_variables(
    context: &Context,
    process: Object,
    place: u64,
    list: Seq<(Seq<char>, Seq<char>)>,
    table: Table,
)
    ensures
        adds(
            table,
            envars::with_variables(
                table,
                number_of(context, process)->0,
                context.image_name_or_empty(process),
                place,
                list,
                list.len() as int,
            ),
            flat(parts_of_variables(context, process, place, list), list.len() as int),
        ),
{
    let steps = |j: int| envars::with_variables(
        table,
        number_of(context, process)->0,
        context.image_name_or_empty(process),
        place,
        list,
        j,
    );
    let parts = parts_of_variables(context, process, place, list);
    assert forall|j: int| 0 <= j < list.len() implies adds(
        steps(j),
        steps(j + 1),
        #[trigger] parts(j),
    ) by {
        lemma_adds_none(steps(j));
        lemma_adds_one(
            steps(j),
            0,
            seq![
                Cell::integer(number_of(context, process)->0 as i64),
                Cell::Text(image_or_empty(context, process)),
                Cell::hex(place),
                Cell::Text(list[j].0),
                Cell::Text(list[j].1),
            ],
        );
    }
    lemma_flat_adds(steps, parts, list.len() as int);
}


/// The environment of a process whose number can be read.
pub open spec fn environment_of(
    context: &Context,
    config: &Configuration,
    process: Object,
) -> Option<
    (u64, Seq<(Seq<char>, Seq<char>)>),
> {
    match context.layer_of(process, config.text_or("physical_layer"@, "base"@)) {
        Some(layer) => if number_of(context, process) is Some {
            envars::environment(context, process, layer)
        } else {
            None
        },
        None => None,
    }
}

/// The rows of the variables of a process.
#[verifier::opaque]
pub open spec fn told_in_variables_are_reported(
    context: &Context,
    config: &Configuration,
    process: Object,
) -> Seq<Seq<Cell>> {
    match environment_of(context, config, process) {
        Some((place, list)) => flat(
            parts_of_variables(context, process, place, list),
            list.len() as int,
        ),
        None => Seq::empty(),
    }
}

proof fn lemma_variables_are_reported(
    context: &Context,
    config: &Configuration,
    process: Object,
    table: Table,
)
    ensures
        adds(
            table,
            envars::with_process(
                context,
                config.text_or("physical_layer"@, "base"@),
                table,
                process,
            ),
            told_in_variables_are_reported(context, config, process),
        ),
{
    reveal(told_in_variables_are_reported);
    lemma_adds_none(table);
    reveal(envars::with_process);
    if let Some((place, list)) = environment_of(context, config, process) {
        lemma_variables(context, process, place, list, table);
    }
}
/// What is told of each in turn.
pub open spec fn rows_of_variables_are_reported(
    context: &Context,
    config: &Configuration,
    processes: Seq<Object>,
) -> spec_fn(int) -> Seq<Seq<Cell>> {
    |k: int|
        told_in_variables_are_reported(context, config, processes[k])
}

/// The variables of each process that is asked for are reported in order, under the process
/// and the place its environment is recorded at.
pub proof fn law_variables_are_reported(
    context: &Context,
    config: &Configuration,
    kernel: Module,
    processes: Seq<Object>,
)
    requires
        kernel_of(context, config) == Some(kernel),
        chosen(context, &kernel, config) == Some(processes),
    ensures
        Envars.report(context, config) is Ok,
        names_of(Envars.report(context, config)->Ok_0.columns) == seq![
            "PID"@,
            "Process"@,
            "Block"@,
            "Variable"@,
            "Value"@,
        ],
        cells_of(Envars.report(context, config)->Ok_0) == flat(
            rows_of_variables_are_reported(context, config, processes),
            processes.len() as int,
        ),
{
    let steps = |k: int| envars::reported(
        context,
        config.text_or("physical_layer"@, "base"@),
        Envars.headings(),
        processes,
        k,
    );
    let rows = rows_of_variables_are_reported(context, config, processes);
    assert forall|k: int| 0 <= k < processes.len() implies adds(
        steps(k),
        steps(k + 1),
        #[trigger] rows(k),
    ) by {
        lemma_adds_none(steps(k));
        lemma_variables_are_reported(context, config, processes[k], steps(k));
    }
    lemma_flat_adds(steps, rows, processes.len() as int);
}


proof fn lemma_listed(list: Seq<SidName>, sid: Seq<char>, from: int, i: int)
    requires
        0 <= from,
    ensures
        from <= i < list.len() && list[i].sid@ == sid && (forall|k: int|
            from <= k < i ==> (#[trigger] list[k]).sid@ != sid) ==> named_from(list, sid, from)
            == Some(i),
        (forall|k: int| from <= k < list.len() ==> (#[trigger] list[k]).sid@ != sid) ==> named_from(
            list,
            sid,
            from,
        ) is None,
    decreases list.len() - from,
{
    if from < list.len() {
        lemma_listed(list, sid, from + 1, i);
    }
}

/// Whether a list has no name for an identifier.
pub open spec fn lacks(list: Seq<SidName>, sid: Seq<char>) -> bool {
    forall|k: int| 0 <= k < list.len() ==> (#[trigger] list[k]).sid@ != sid
}

/// Whether an entry is the first that a list has for an identifier.
pub open spec fn is_first(list: Seq<SidName>, sid: Seq<char>, i: int) -> bool {
    &&& 0 <= i < list.len()
    &&& list[i].sid@ == sid
    &&& forall|k: int| 0 <= k < i ==> (#[trigger] list[k]).sid@ != sid
}

/// An identifier that means the same everywhere goes by that meaning, one of a service
/// account by the service, one that the registry has a profile for by the last such profile,
/// and one that only looks like a known kind by that kind.
pub proof fn law_whom_an_identifier_stands_for(
    security: &Security,
    accounts: Seq<(Seq<char>, Seq<char>)>,
    sid: Seq<char>,
    i: int,
)
    ensures
        is_first(security.well_known@, sid, i) ==> getsids::resolved(security, accounts, sid)
            == Cell::Text(security.well_known@[i].name@),
        lacks(security.well_known@, sid) && is_first(security.services@, sid, i)
            ==> getsids::resolved(security, accounts, sid) == Cell::Text(
            security.services@[i].name@,
        ),
        lacks(security.well_known@, sid) && lacks(security.services@, sid) && 0 <= i
            < accounts.len() && accounts[i].0 == sid && (forall|k: int|
            i < k < accounts.len() ==> (#[trigger] accounts[k]).0 != sid) ==> getsids::resolved(
            security,
            accounts,
            sid,
        ) == Cell::Text(accounts[i].1),
        lacks(security.well_known@, sid) && lacks(security.services@, sid) && (forall|k: int|
            0 <= k < accounts.len() ==> (#[trigger] accounts[k]).0 != sid) && is_first(
            security.patterned@,
            sid,
            i,
        ) ==> getsids::resolved(security, accounts, sid) == Cell::Text(
            security.patterned@[i].name@,
        ),
        lacks(security.well_known@, sid) && lacks(security.services@, sid) && (forall|k: int|
            0 <= k < accounts.len() ==> (#[trigger] accounts[k]).0 != sid) && lacks(
            security.patterned@,
            sid,
        ) ==> getsids::resolved(security, accounts, sid) == Cell::not_available(),
{
    lemma_listed(security.well_known@, sid, 0, i);
    lemma_listed(security.services@, sid, 0, i);
    lemma_listed(security.patterned@, sid, 0, i);
    lemma_account(accounts, sid, accounts.len() as int, i);
}

proof fn lemma_account(accounts: Seq<(Seq<char>, Seq<char>)>, sid: Seq<char>, count: int, i: int)
    requires
        0 <= count <= accounts.len(),
    ensures
        0 <= i < count && accounts[i].0 == sid && (forall|k: int|
            i < k < count ==> (#[trigger] accounts[k]).0 != sid) ==> getsids::account_named(
            accounts,
            sid,
            count,
        ) == Some(accounts[i].1),
        (forall|k: int| 0 <= k < count ==> (#[trigger] accounts[k]).0 != sid)
            ==> getsids::account_named(accounts, sid, count) is None,
    decreases count,
{
    if count > 0 {
        lemma_account(accounts, sid, count - 1, i);
    }
}

/// A profile of the software hive names the account it is kept for: the last part of the path
/// it lies under.
pub proof fn law_a_profile_names_its_account(folder: Seq<char>, name: Seq<char>)
    requires
        !name.contains('\\'),
    ensures
        getsids::behind_backslash(folder + seq!['\\'] + name) == name,
        getsids::behind_backslash(name) == name,
{
    lemma_last(folder + seq!['\\'] + name, '\\', folder.len() as int);
    assert((folder + seq!['\\'] + name).subrange(
        folder.len() as int + 1,
        (folder + seq!['\\'] + name).len() as int,
    ) =~= name);
    lemma_nowhere(name, '\\');
}

proof fn lemma_last(list: Seq<char>, c: char, at: int)
    requires
        0 <= at < list.len(),
        list[at] == c,
        forall|k: int| at < k < list.len() ==> list[k] != c,
    ensures
        text::last_index(list, c) == Some(at),
    decreases list.len(),
{
    if at < list.len() - 1 {
        lemma_last(list.drop_last(), c, at);
    }
}

proof fn lemma_nowhere(list: Seq<char>, c: char)
    requires
        !list.contains(c),
    ensures
        text::last_index(list, c) is None,
    decreases list.len(),
{
    if list.len() > 0 {
        assert(list.contains(list[list.len() - 1])) by {
            assert(list[list.len() - 1] == list.last());
        }
        assert forall|k: int| 0 <= k < list.drop_last().len() implies list.drop_last()[k] != c by {
            assert(list.contains(list[k]));
        }
        lemma_nowhere(list.drop_last(), c);
    }
}

/// The rows of the identifiers in the token of a process.
pub open spec fn parts_of_identifiers(
    context: &Context,
    accounts: Seq<(Seq<char>, Seq<char>)>,
    process: Object,
    sids: Seq<String>,
) -> spec_fn(int) -> Seq<Seq<Cell>> {
    |j: int|
        seq![
            seq![
                Cell::integer(number_of(context, process)->0 as i64),
                Cell::Text(image_or_empty(context, process)),
                Cell::Text(sids[j]@),
                getsids::resolved(&context.windows.security, accounts, sids[j]@),
            ]
        ]
}

proof fn lemma_identifiers(
    context: &Context,
    accounts: Seq<(Seq<char>, Seq<char>)>,
    process: Object,
    sids: Seq<String>,
    table: Table,
)
    ensures
        adds(
            table,
            getsids::with_sids(
                &context.windows.security,
                accounts,
                table,
                number_of(context, process)->0,
                context.image_name_or_empty(process),
                texts(sids),
                sids.len() as int,
            ),
            flat(parts_of_identifiers(context, accounts, process, sids), sids.len() as int),
        ),
{
    let steps = |j: int| getsids::with_sids(
        &context.windows.security,
        accounts,
        table,
        number_of(context, process)->0,
        context.image_name_or_empty(process),
        texts(sids),
        j,
    );
    let parts = parts_of_identifiers(context, accounts, process, sids);
    assert forall|j: int| 0 <= j < sids.len() implies adds(
        steps(j),
        steps(j + 1),
        #[trigger] parts(j),
    ) by {
        lemma_adds_none(steps(j));
        assert(texts(sids)[j] == sids[j]@);
        lemma_adds_one(
            steps(j),
            0,
            seq![
                Cell::integer(number_of(context, process)->0 as i64),
                Cell::Text(image_or_empty(context, process)),
                Cell::Text(sids[j]@),
                getsids::resolved(&context.windows.security, accounts, sids[j]@),
            ],
        );
    }
    lemma_flat_adds(steps, parts, sids.len() as int);
}

/// The rows of the identifiers of a process.
#[verifier::opaque]
pub open spec fn told_in_identifiers_are_reported(
    context: &Context,
    process: Object,
) -> Seq<Seq<Cell>> {
    match (
        number_of(context, process),
        token_from(context.windows.security.tokens@, process.offset, 0),
    ) {
        (Some(_), Some(token)) => flat(
            parts_of_identifiers(
                context,
                getsids::known_accounts(context),
                process,
                token.sids@,
            ),
            token.sids@.len() as int,
        ),
        _ => Seq::empty(),
    }
}

proof fn lemma_identifiers_are_reported(context: &Context, process: Object, table: Table)
    ensures
        adds(
            table,
            getsids::with_process(context, getsids::known_accounts(context), table, process),
            told_in_identifiers_are_reported(context, process),
        ),
{
    reveal(told_in_identifiers_are_reported);
    lemma_adds_none(table);
    reveal(getsids::with_process);
    if let (Some(_), Some(token)) = (
        number_of(context, process),
        token_from(context.windows.security.tokens@, process.offset, 0),
    ) {
        lemma_identifiers(
            context,
            getsids::known_accounts(context),
            process,
            token.sids@,
            table,
        );
    }
}
/// What is told of each in turn.
pub open spec fn rows_of_identifiers_are_reported(
    context: &Context,
    processes: Seq<Object>,
) -> spec_fn(int) -> Seq<Seq<Cell>> {
    |k: int|
        told_in_identifiers_are_reported(context, processes[k])
}

/// The identifiers in the token of each process that is asked for are reported in order, with
/// whom they stand for.
pub proof fn law_identifiers_are_reported(
    context: &Context,
    config: &Configuration,
    kernel: Module,
    processes: Seq<Object>,
)
    requires
        kernel_of(context, config) == Some(kernel),
        chosen(context, &kernel, config) == Some(processes),
    ensures
        GetSids.report(context, config) is Ok,
        names_of(
            GetSids.report(context, config)->Ok_0.columns,
        ) == seq!["PID"@, "Process"@, "SID"@, "Name"@],
        cells_of(GetSids.report(context, config)->Ok_0) == flat(
            rows_of_identifiers_are_reported(context, processes),
            processes.len() as int,
        ),
{
    let steps = |k: int| getsids::reported(context, GetSids.headings(), processes, k);
    let rows = rows_of_identifiers_are_reported(context, processes);
    assert forall|k: int| 0 <= k < processes.len() implies adds(
        steps(k),
        steps(k + 1),
        #[trigger] rows(k),
    ) by {
        lemma_adds_none(steps(k));
        lemma_identifiers_are_reported(context, processes[k], steps(k));
    }
    lemma_flat_adds(steps, rows, processes.len() as int);
}


/// The words for what a token says of a privilege.
pub open spec fn words_of(privilege: TokenPrivilege) -> Seq<Seq<char>> {
    (if privilege.present {
        seq!["Present"@]
    } else {
        Seq::empty()
    }) + (if privilege.enabled {
        seq!["Enabled"@]
    } else {
        Seq::empty()
    }) + (if privilege.default {
        seq!["Default"@]
    } else {
        Seq::empty()
    })
}

/// What is told of a privilege.
#[verifier::opaque]
pub open spec fn privilege_of(
    context: &Context,
    process: Object,
    privilege: TokenPrivilege,
    known: PrivilegeName,
) -> Seq<Cell> {
    seq![
        Cell::integer(number_of(context, process)->0 as i64),
        Cell::Text(image_or_empty(context, process)),
        Cell::integer(privilege.value as i64),
        Cell::Text(known.name@),
        Cell::Text(joined(words_of(privilege), ","@)),
        Cell::Text(known.description@),
    ]
}

proof fn lemma_privilege(context: &Context, process: Object, privilege: TokenPrivilege)
    requires
        number_of(context, process) is Some,
    ensures
        privileges::privilege_row(
            &context.windows.security,
            number_of(context, process)->0,
            context.image_name_or_empty(process),
            privilege,
        ) == match privilege_from(context.windows.security.privileges@, privilege.value, 0) {
            Some(known) => Some(privilege_of(context, process, privilege, known)),
            None => None,
        },
{
    reveal(privilege_of);
    assert(privileges::attributes(privilege) =~= words_of(privilege));
}

/// The rows of the privileges in the token of a process, as far as they have a name.
pub open spec fn parts_of_privileges(
    context: &Context,
    process: Object,
    list: Seq<TokenPrivilege>,
) -> spec_fn(int) -> Seq<Seq<Cell>> {
    |j: int|
        match privilege_from(context.windows.security.privileges@, list[j].value, 0) {
            Some(known) => seq![privilege_of(context, process, list[j], known)],
            None => Seq::empty(),
        }
}

proof fn lemma_privileges(
    context: &Context,
    process: Object,
    list: Seq<TokenPrivilege>,
    table: Table,
)
    requires
        number_of(context, process) is Some,
    ensures
        adds(
            table,
            privileges::with_privileges(
                &context.windows.security,
                table,
                number_of(context, process)->0,
                context.image_name_or_empty(process),
                list,
                list.len() as int,
            ),
            flat(parts_of_privileges(context, process, list), list.len() as int),
        ),
{
    let steps = |j: int| privileges::with_privileges(
        &context.windows.security,
        table,
        number_of(context, process)->0,
        context.image_name_or_empty(process),
        list,
        j,
    );
    let parts = parts_of_privileges(context, process, list);
    assert forall|j: int| 0 <= j < list.len() implies adds(
        steps(j),
        steps(j + 1),
        #[trigger] parts(j),
    ) by {
        lemma_adds_none(steps(j));
        lemma_privilege(context, process, list[j]);
        if let Some(known) = privilege_from(
            context.windows.security.privileges@,
            list[j].value,
            0,
        ) {
            lemma_adds_one(steps(j), 0, privilege_of(context, process, list[j], known));
        }
    }
    lemma_flat_adds(steps, parts, list.len() as int);
}

/// The rows of the privileges of a process.
#[verifier::opaque]
pub open spec fn told_in_privileges_are_reported(
    context: &Context,
    process: Object,
) -> Seq<Seq<Cell>> {
    match (
        number_of(context, process),
        token_from(context.windows.security.tokens@, process.offset, 0),
    ) {
        (Some(_), Some(token)) => flat(
            parts_of_privileges(context, process, token.privileges@),
            token.privileges@.len() as int,
        ),
        _ => Seq::empty(),
    }
}

proof fn lemma_privileges_are_reported(context: &Context, process: Object, table: Table)
    ensures
        adds(
            table,
            privileges::with_process(context, table, process),
            told_in_privileges_are_reported(context, process),
        ),
{
    reveal(told_in_privileges_are_reported);
    lemma_adds_none(table);
    reveal(privileges::with_process);
    if let (Some(_), Some(token)) = (
        number_of(context, process),
        token_from(context.windows.security.tokens@, process.offset, 0),
    ) {
        lemma_privileges(context, process, token.privileges@, table);
    }
}
/// What is told of each in turn.
pub open spec fn rows_of_privileges_are_reported(
    context: &Context,
    processes: Seq<Object>,
) -> spec_fn(int) -> Seq<Seq<Cell>> {
    |k: int|
        told_in_privileges_are_reported(context, processes[k])
}

/// The privileges in the token of each process that is asked for are reported in order, as far as
/// the system has a name for them.
pub proof fn law_privileges_are_reported(
    context: &Context,
    config: &Configuration,
    kernel: Module,
    processes: Seq<Object>,
)
    requires
        kernel_of(context, config) == Some(kernel),
        chosen(context, &kernel, config) == Some(processes),
    ensures
        Privileges.report(context, config) is Ok,
        names_of(Privileges.report(context, config)->Ok_0.columns) == seq![
            "PID"@,
            "Process"@,
            "Value"@,
            "Privilege"@,
            "Attributes"@,
            "Description"@,
        ],
        cells_of(Privileges.report(context, config)->Ok_0) == flat(
            rows_of_privileges_are_reported(context, processes),
            processes.len() as int,
        ),
{
    let steps = |k: int| privileges::reported(context, Privileges.headings(), processes, k);
    let rows = rows_of_privileges_are_reported(context, processes);
    assert forall|k: int| 0 <= k < processes.len() implies adds(
        steps(k),
        steps(k + 1),
        #[trigger] rows(k),
    ) by {
        lemma_adds_none(steps(k));
        lemma_privileges_are_reported(context, processes[k], steps(k));
    }
    lemma_flat_adds(steps, rows, processes.len() as int);
}


/// The token of a process is the first that is recorded for where the process stands.
pub proof fn law_a_token_belongs_to_its_process(tokens: Seq<Token>, process: u64, from: int, i: int)
    requires
        0 <= from <= i < tokens.len(),
        tokens[i].process == process,
        forall|k: int| from <= k < i ==> (#[trigger] tokens[k]).process != process,
    ensures
        token_from(tokens, process, from) == Some(tokens[i]),
    decreases i - from,
{
    if from < i {
        law_a_token_belongs_to_its_process(tokens, process, from + 1, i);
    }
}

/// A function that an image imports by name goes by that name. One by number goes by what the
/// number is known as in that library, by the number itself where the library's others are
/// known, and by nothing else.
pub proof fn law_how_an_import_is_named(
    tables: Seq<(Seq<char>, Seq<(Seq<char>, Seq<char>)>)>,
    import: Import,
)
    ensures
        import.function matches Some(name) ==> iat::function_cell(tables, import) == Cell::Text(
            name@,
        ),
        import.function is None ==> match iat::value_from(tables, text::lower(import.library@), 0) {
            Some(names) => match iat::value_from(
                names,
                text::decimal_text(import.ordinal as int),
                0,
            ) {
                Some(name) => iat::function_cell(tables, import) == Cell::Text(name),
                None => iat::function_cell(tables, import) == Cell::Text(
                    "ord"@ + text::decimal_text(import.ordinal as int),
                ),
            },
            None => iat::function_cell(tables, import) == Cell::not_available(),
        },
{
}

/// A table gives the value of the first entry of a name.
pub proof fn law_a_table_gives_the_first_value<V>(
    entries: Seq<(Seq<char>, V)>,
    name: Seq<char>,
    from: int,
    i: int,
)
    requires
        0 <= from <= i < entries.len(),
        entries[i].0 == name,
        forall|k: int| from <= k < i ==> (#[trigger] entries[k]).0 != name,
    ensures
        iat::value_from(entries, name, from) == Some(entries[i].1),
    decreases i - from,
{
    if from < i {
        law_a_table_gives_the_first_value(entries, name, from + 1, i);
    }
}

/// The rows of the imports of a process.
pub open spec fn parts_of_imports(
    context: &Context,
    tables: Seq<(Seq<char>, Seq<(Seq<char>, Seq<char>)>)>,
    process: Object,
    begin: u64,
    imports: Seq<Import>,
) -> spec_fn(int) -> Seq<Seq<Cell>> {
    |j: int|
        seq![
            seq![
                Cell::integer(number_of(context, process)->0 as i64),
                Cell::Text(image_or_empty(context, process)),
                Cell::Text(imports[j].library@),
                Cell::Bool(imports[j].bound),
                iat::function_cell(tables, imports[j]),
                Cell::hex(begin.wrapping_mul(2).wrapping_add(imports[j].slot as u64)),
            ]
        ]
}

proof fn lemma_imports(
    context: &Context,
    tables: Seq<(Seq<char>, Seq<(Seq<char>, Seq<char>)>)>,
    process: Object,
    begin: u64,
    imports: Seq<Import>,
    table: Table,
)
    ensures
        adds(
            table,
            iat::with_imports(
                tables,
                table,
                number_of(context, process)->0,
                context.image_name_or_empty(process),
                begin,
                imports,
                imports.len() as int,
            ),
            flat(parts_of_imports(context, tables, process, begin, imports), imports.len() as int),
        ),
{
    let steps = |j: int| iat::with_imports(
        tables,
        table,
        number_of(context, process)->0,
        context.image_name_or_empty(process),
        begin,
        imports,
        j,
    );
    let parts = parts_of_imports(context, tables, process, begin, imports);
    assert forall|j: int| 0 <= j < imports.len() implies adds(
        steps(j),
        steps(j + 1),
        #[trigger] parts(j),
    ) by {
        lemma_adds_none(steps(j));
        lemma_adds_one(
            steps(j),
            0,
            seq![
                Cell::integer(number_of(context, process)->0 as i64),
                Cell::Text(image_or_empty(context, process)),
                Cell::Text(imports[j].library@),
                Cell::Bool(imports[j].bound),
                iat::function_cell(tables, imports[j]),
                Cell::hex(begin.wrapping_mul(2).wrapping_add(imports[j].slot as u64)),
            ],
        );
    }
    lemma_flat_adds(steps, parts, imports.len() as int);
}


/// Where the image of a process begins and what it imports, if its headers can be read.
pub open spec fn imports_of(context: &Context, config: &Configuration, process: Object) -> Option<
    (u64, Seq<Import>),
> {
    match context.layer_of(process, config.text_or("physical_layer"@, "base"@)) {
        Some(layer) => match peb_of(context, process, layer) {
            Some(peb) => match context.member_pointer(peb, "ImageBaseAddress") {
                Some(begin) => match context.pe_of(layer, begin) {
                    Some(image) => match image.imports {
                        Some(imports) => if begin != 0 && number_of(context, process) is Some {
                            Some((begin, imports@))
                        } else {
                            None
                        },
                        None => None,
                    },
                    None => None,
                },
                None => None,
            },
            None => None,
        },
        None => None,
    }
}

/// The rows of the imports of a process.
#[verifier::opaque]
pub open spec fn told_in_imports_are_reported(
    context: &Context,
    config: &Configuration,
    process: Object,
) -> Seq<Seq<Cell>> {
    match imports_of(context, config, process) {
        Some((begin, imports)) => flat(
            parts_of_imports(
                context,
                iat::tables_of(context.windows.ordinals@),
                process,
                begin,
                imports,
            ),
            imports.len() as int,
        ),
        None => Seq::empty(),
    }
}

proof fn lemma_imports_are_reported(
    context: &Context,
    config: &Configuration,
    process: Object,
    table: Table,
)
    ensures
        adds(
            table,
            iat::with_process(
                context,
                iat::tables_of(context.windows.ordinals@),
                config.text_or("physical_layer"@, "base"@),
                table,
                process,
            ),
            told_in_imports_are_reported(context, config, process),
        ),
{
    reveal(told_in_imports_are_reported);
    lemma_adds_none(table);
    reveal(iat::with_process);
    if let Some((begin, imports)) = imports_of(context, config, process) {
        lemma_imports(
            context,
            iat::tables_of(context.windows.ordinals@),
            process,
            begin,
            imports,
            table,
        );
    }
}
/// What is told of each in turn.
pub open spec fn rows_of_imports_are_reported(
    context: &Context,
    config: &Configuration,
    processes: Seq<Object>,
) -> spec_fn(int) -> Seq<Seq<Cell>> {
    |k: int|
        told_in_imports_are_reported(context, config, processes[k])
}

/// What the image of each process that is asked for imports is reported in order.
pub proof fn law_imports_are_reported(
    context: &Context,
    config: &Configuration,
    kernel: Module,
    processes: Seq<Object>,
)
    requires
        kernel_of(context, config) == Some(kernel),
        chosen(context, &kernel, config) == Some(processes),
    ensures
        Iat.report(context, config) is Ok,
        names_of(Iat.report(context, config)->Ok_0.columns) == seq![
            "PID"@,
            "Name"@,
            "Library"@,
            "Bound"@,
            "Function"@,
            "Address"@,
        ],
        cells_of(Iat.report(context, config)->Ok_0) == flat(
            rows_of_imports_are_reported(context, config, processes),
            processes.len() as int,
        ),
{
    let steps = |k: int| iat::reported(
        context,
        iat::tables_of(context.windows.ordinals@),
        config.text_or("physical_layer"@, "base"@),
        Iat.headings(),
        processes,
        k,
    );
    let rows = rows_of_imports_are_reported(context, config, processes);
    assert forall|k: int| 0 <= k < processes.len() implies adds(
        steps(k),
        steps(k + 1),
        #[trigger] rows(k),
    ) by {
        lemma_adds_none(steps(k));
        lemma_imports_are_reported(context, config, processes[k], steps(k));
    }
    lemma_flat_adds(steps, rows, processes.len() as int);
}


} // verus!
