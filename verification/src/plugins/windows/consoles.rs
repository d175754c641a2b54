//! Recover console command history from `conhost` memory.
//!
//! The console host keeps each window's typed commands in a history buffer:
//! an array of counted UTF-16 strings. The history is found by its shape, a run
//! of counted strings that read as plausible command lines, so the `ConsoleInfo`
//! address is the buffer that was found rather than the console structure that
//! owns it.

use crate::config::{ConfigValue, Configuration};
use crate::context::{self, word_of, Context, Object};
use crate::error::{self, Failure, VolatilityError};
use crate::plugins::{
    self, ConfigView, KindView, OperatingSystem, Plugin, Requirement, RequirementKind,
    RequirementView,
};
use crate::plugins::windows::{chosen_processes, kernel_module, physical_layer};
use crate::renderers::{Cell, Column, ColumnType, Row, Table, TreeGrid, Value};
use crate::symbols;
use crate::symbols::registry::{Hive, RegistryKey, RegistryValue};
use crate::symbols::windows::{walk_vad_tree, Vad};
use crate::text::{
    self, characters, contains, push_text, same_ignoring_case, same_text, units_of, utf16,
};
use vstd::prelude::*;

verus! {

/// Looks for Windows console buffers.
pub struct Consoles;

/// Reports the same recovered history under the historical plugin name.
pub struct CmdScan;

/// The console host, which is the only process that keeps console state.
pub const CONSOLE_HOST: &'static str = "conhost.exe";

/// A command of more bytes than this is not a console line.
pub const MAX_COMMAND_BYTES: usize = 1024;

/// The shortest run of recovered commands worth reporting, which keeps
/// coincidental UTF-16 text out of the results.
pub const MIN_RUN: usize = 2;

/// A run is not followed further once it has more commands than this.
pub const MAX_RUN: usize = 256;

/// The most of a range of memory that is searched.
pub const MAX_RANGE: u64 = 0x400000;

/// How many commands a console keeps by default.
pub const DEFAULT_HISTORY_SIZE: i64 = 50;

/// How many history buffers a console keeps by default.
pub const DEFAULT_BUFFER_COUNT: i64 = 4;

/// Whether UTF-16 units from a place on are whole characters: no surrogate
/// stands without its partner.
pub open spec fn is_whole_from(units: Seq<u16>, from: int) -> bool
    decreases units.len() - from,
{
    if from < 0 || from >= units.len() {
        true
    } else if units[from] < 0xd800 || units[from] >= 0xe000 {
        is_whole_from(units, from + 1)
    } else {
        units[from] < 0xdc00 && from + 1 < units.len() && 0xdc00 <= units[from + 1] < 0xe000
            && is_whole_from(units, from + 2)
    }
}

fn is_whole(units: &Vec<u16>) -> (whole: bool)
    ensures
        whole == is_whole_from(units@, 0),
{
    let mut i: usize = 0;
    while i < units.len()
        invariant
            i <= units@.len(),
            is_whole_from(units@, 0) == is_whole_from(units@, i as int),
        decreases units@.len() - i,
    {
        if units[i] < 0xd800 || units[i] >= 0xe000 {
            i = i + 1;
        } else if units[i] < 0xdc00 && i + 1 < units.len() && units[i + 1] >= 0xdc00 && units[i
            + 1] < 0xe000 {
            i = i + 2;
        } else {
            return false;
        }
    }
    true
}

/// Whether a character is a control character.
#[verifier::allow_in_spec]
pub fn is_control(c: char) -> (control: bool)
    returns
        c <= '\u{1f}' || ('\u{7f}' <= c && c <= '\u{9f}'),
{
    c <= '\u{1f}' || ('\u{7f}' <= c && c <= '\u{9f}')
}

/// Whether a text reads as a command line: printable, and not empty. Anything
/// else is binary that happened to carry a plausible length.
pub open spec fn is_command(text: Seq<char>) -> bool {
    text.len() > 0 && forall|i: int| 0 <= i < text.len() ==> !is_control(#[trigger] text[i])
}

fn reads_as_command(text: &str) -> (command: bool)
    ensures
        command == is_command(text@),
{
    let list = characters(text);
    if list.is_empty() {
        return false;
    }
    for i in 0..list.len()
        invariant
            list@ == text@,
            forall|j: int| 0 <= j < i ==> !is_control(#[trigger] text@[j]),
    {
        if is_control(list[i]) {
            assert(is_control(text@[i as int]));
            return false;
        }
    }
    true
}

/// A counted UTF-16 string and the place behind it.
///
/// The count is in bytes and must be even, since the characters are UTF-16. It
/// is followed by a capacity word before the characters begin.
pub open spec fn counted_at(data: Seq<u8>, at: int) -> Option<(Seq<char>, int)> {
    if at < 0 || at + 2 > data.len() {
        None
    } else {
        let length = context::word(data.subrange(at, at + 2)) as int;
        if length == 0 || length % 2 != 0 || length > MAX_COMMAND_BYTES || at + 4 + length
            > data.len() {
            None
        } else {
            let units = text::units(data.subrange(at + 4, at + 4 + length));
            if is_whole_from(units, 0) && is_command(text::utf16_text(units)) {
                Some((text::utf16_text(units), at + 4 + length))
            } else {
                None
            }
        }
    }
}

/// Read one counted UTF-16 string, returning it and the offset after it.
pub fn read_counted(data: &[u8], at: usize) -> (found: Option<(String, usize)>)
    ensures
        match found {
            Some((text, next)) => counted_at(data@, at as int) == Some((text@, next as int)),
            None => counted_at(data@, at as int) is None,
        },
{
    let total: usize = data.len();
    if total < 2 || at > total - 2 {
        return None;
    }
    let length: usize = word_of(vstd::slice::slice_subrange(data, at, at + 2)) as usize;
    if length == 0 || length % 2 != 0 || length > MAX_COMMAND_BYTES {
        return None;
    }
    if total - at < 4 || total - at - 4 < length {
        return None;
    }
    let start: usize = at + 4;
    let units = units_of(vstd::slice::slice_subrange(data, start, start + length));
    if !is_whole(&units) {
        return None;
    }
    let text = utf16(units.as_slice());
    if !reads_as_command(&text) {
        return None;
    }
    Some((text, start + length))
}

/// Some commands and those that follow at a place, and the place behind them.
pub open spec fn run_from(data: Seq<u8>, commands: Seq<Seq<char>>, at: int) -> (Seq<Seq<char>>, int)
    decreases data.len() - at,
{
    match counted_at(data, at) {
        Some((command, next)) => if commands.len() + 1 > MAX_RUN {
            (commands.push(command), next)
        } else {
            run_from(data, commands.push(command), next)
        },
        None => (commands, at),
    }
}

/// A run only grows, and ends no earlier than it began.
pub proof fn lemma_run_advances(data: Seq<u8>, commands: Seq<Seq<char>>, at: int)
    requires
        at <= data.len(),
    ensures
        at <= run_from(data, commands, at).1 <= data.len(),
        commands.len() <= run_from(data, commands, at).0.len(),
        commands.len() <= MAX_RUN ==> run_from(data, commands, at).0.len() <= MAX_RUN + 1,
    decreases data.len() - at,
{
    match counted_at(data, at) {
        Some((command, next)) => if commands.len() + 1 <= MAX_RUN {
            lemma_run_advances(data, commands.push(command), next);
        },
        None => {},
    }
}

/// The runs of commands from a place on, each with where it begins.
pub open spec fn histories_from(data: Seq<u8>, position: int) -> Seq<(int, Seq<Seq<char>>)>
    decreases data.len() - position,
{
    if position < 0 || position + 4 >= data.len() {
        Seq::empty()
    } else {
        match counted_at(data, position) {
            Some((first, next)) => {
                let (commands, cursor) = run_from(data, seq![first], next);
                proof {
                    lemma_run_advances(data, seq![first], next);
                }
                if commands.len() >= MIN_RUN {
                    seq![(position, commands)] + histories_from(data, cursor)
                } else {
                    histories_from(data, position + 2)
                }
            },
            None => histories_from(data, position + 2),
        }
    }
}

/// What is said of some runs of commands.
pub open spec fn history_views(list: Seq<(usize, Vec<String>)>) -> Seq<(int, Seq<Seq<char>>)> {
    Seq::new(list.len(), |i: int| (list[i].0 as int, text::texts(list[i].1@)))
}

/// Follow consecutive entries for as long as they keep parsing.
fn follow_run(data: &[u8], first: String, at: usize) -> (run: (Vec<String>, usize))
    requires
        at <= data@.len(),
    ensures
        (text::texts(run.0@), run.1 as int) == run_from(data@, seq![first@], at as int),
{
    let mut commands: Vec<String> = Vec::new();
    let ghost start = first@;
    push_text(&mut commands, first);
    assert(text::texts(commands@) =~= seq![start]);
    let mut cursor: usize = at;
    let ghost whole = run_from(data@, seq![start], at as int);
    let mut going = true;
    while going
        invariant
            cursor <= data@.len(),
            text::texts(commands@).len() == commands@.len(),
            going ==> commands@.len() <= MAX_RUN,
            going ==> whole == run_from(data@, text::texts(commands@), cursor as int),
            !going ==> whole == (text::texts(commands@), cursor as int),
        decreases
                (if going {
                    data@.len() - cursor + 1
                } else {
                    0
                }),
    {
        match read_counted(data, cursor) {
            Some((command, next)) => {
                push_text(&mut commands, command);
                cursor = next;
                if commands.len() > MAX_RUN {
                    going = false;
                }
            },
            None => {
                going = false;
            },
        }
    }
    (commands, cursor)
}

/// Find runs of counted UTF-16 strings that read as command lines.
///
/// Each entry is a byte count followed by the characters, which is how the
/// console host stores them. A run of consecutive valid entries is a history
/// buffer rather than coincidence.
pub fn find_history(data: &[u8]) -> (results: Vec<(usize, Vec<String>)>)
    ensures
        history_views(results@) == histories_from(data@, 0),
{
    let mut results: Vec<(usize, Vec<String>)> = Vec::new();
    let mut position: usize = 0;
    let total: usize = data.len();
    assert(history_views(results@) =~= Seq::<(int, Seq<Seq<char>>)>::empty());
    while total >= 4 && position < total - 4
        invariant
            total == data@.len(),
            position <= total,
            histories_from(data@, 0) =~= history_views(results@) + histories_from(
                data@,
                position as int,
            ),
        decreases total - position,
    {
        match read_counted(data, position) {
            Some((first, next)) => {
                let ghost begun = first@;
                proof {
                    lemma_run_advances(data@, seq![begun], next as int);
                }
                let (commands, cursor) = follow_run(data, first, next);
                assert(text::texts(commands@).len() == commands@.len());
                if commands.len() >= MIN_RUN {
                    let ghost before = history_views(results@);
                    let ghost run = (position as int, text::texts(commands@));
                    results.push((position, commands));
                    assert(history_views(results@) =~= before + seq![run]);
                    position = cursor;
                } else {
                    position = position + 2;
                }
            },
            None => {
                position = position + 2;
            },
        }
    }
    results
}

/// Whether texts all read as command lines.
pub open spec fn are_commands(texts: Seq<Seq<char>>) -> bool {
    forall|i: int| 0 <= i < texts.len() ==> is_command(#[trigger] texts[i])
}

/// Each run that is found has two commands at least, and each of its commands is
/// printable text.
pub proof fn law_histories(data: Seq<u8>, position: int)
    ensures
        forall|i: int|
            0 <= i < histories_from(data, position).len() ==> MIN_RUN <= (
            #[trigger] histories_from(data, position)[i]).1.len() <= MAX_RUN + 1 && are_commands(
                histories_from(data, position)[i].1,
            ),
    decreases data.len() - position,
{
    if 0 <= position && position + 4 < data.len() {
        match counted_at(data, position) {
            Some((first, next)) => {
                lemma_run_advances(data, seq![first], next);
                lemma_run_commands(data, seq![first], next);
                let (commands, cursor) = run_from(data, seq![first], next);
                if commands.len() >= MIN_RUN {
                    law_histories(data, cursor);
                    let whole = histories_from(data, position);
                    let rest = histories_from(data, cursor);
                    assert(whole == seq![(position, commands)] + rest);
                    assert forall|i: int| 0 <= i < whole.len() implies MIN_RUN <= (
                    #[trigger] whole[i]).1.len() <= MAX_RUN + 1 && are_commands(whole[i].1) by {
                        if i > 0 {
                            assert(whole[i] == rest[i - 1]);
                        }
                    }
                } else {
                    law_histories(data, position + 2);
                    assert(histories_from(data, position) == histories_from(data, position + 2));
                }
            },
            None => {
                law_histories(data, position + 2);
                assert(histories_from(data, position) == histories_from(data, position + 2));
            },
        }
    }
}

proof fn lemma_run_commands(data: Seq<u8>, commands: Seq<Seq<char>>, at: int)
    requires
        are_commands(commands),
    ensures
        are_commands(run_from(data, commands, at).0),
    decreases data.len() - at,
{
    if let Some((command, next)) = counted_at(data, at) {
        assert(are_commands(commands.push(command)));
        if commands.len() + 1 <= MAX_RUN {
            lemma_run_commands(data, commands.push(command), next);
        }
    }
}

/// The numbers in a list of option values, in order.
pub open spec fn numbers_in(values: Seq<ConfigValue>) -> Seq<i64>
    decreases values.len(),
{
    if values.len() == 0 {
        Seq::empty()
    } else {
        match values.last() {
            ConfigValue::Int(number) => numbers_in(values.drop_last()).push(number),
            _ => numbers_in(values.drop_last()),
        }
    }
}

/// The numbers an option asks for, or the default where it asks for none.
pub open spec fn asked_numbers(value: Option<ConfigValue>, otherwise: i64) -> Seq<i64> {
    match value {
        Some(ConfigValue::List(values)) => if numbers_in(values@).len() == 0 {
            seq![otherwise]
        } else {
            numbers_in(values@)
        },
        _ => seq![otherwise],
    }
}

fn read_numbers(config: &Configuration, name: &str, otherwise: i64) -> (numbers: Vec<i64>)
    ensures
        numbers@ == asked_numbers(config.lookup(name@), otherwise),
{
    let mut numbers: Vec<i64> = Vec::new();
    if let Some(ConfigValue::List(values)) = config.get(name) {
        for i in 0..values.len()
            invariant
                numbers@ == numbers_in(values@.take(i as int)),
        {
            assert(values@.take(i + 1).drop_last() =~= values@.take(i as int));
            if let Some(number) = values[i].as_int() {
                numbers.push(number);
            }
        }
        assert(values@.take(values@.len() as int) =~= values@);
    }
    if numbers.is_empty() {
        numbers.push(otherwise);
    }
    numbers
}

/// The largest of some numbers, and of zero.
pub open spec fn largest(numbers: Seq<i64>) -> i64
    decreases numbers.len(),
{
    if numbers.len() == 0 {
        0
    } else if numbers.last() > largest(numbers.drop_last()) {
        numbers.last()
    } else {
        largest(numbers.drop_last())
    }
}

proof fn lemma_largest(numbers: Seq<i64>)
    ensures
        0 <= largest(numbers),
    decreases numbers.len(),
{
    if numbers.len() > 0 {
        lemma_largest(numbers.drop_last());
    }
}

fn find_largest(numbers: &Vec<i64>) -> (most: u64)
    ensures
        most == largest(numbers@),
{
    let mut most: i64 = 0;
    for i in 0..numbers.len()
        invariant
            most == largest(numbers@.take(i as int)),
            most >= 0,
    {
        assert(numbers@.take(i + 1).drop_last() =~= numbers@.take(i as int));
        if numbers[i] > most {
            most = numbers[i];
        }
    }
    assert(numbers@.take(numbers@.len() as int) =~= numbers@);
    most as u64
}

/// Some numbers, and those that the values of a name hold, of the first values of
/// a key.
pub open spec fn with_values(
    numbers: Seq<i64>,
    values: Seq<RegistryValue>,
    name: Seq<char>,
    count: int,
) -> Seq<i64>
    decreases count,
{
    if count <= 0 {
        numbers
    } else {
        let before = with_values(numbers, values, name, count - 1);
        match (values[count - 1].name, values[count - 1].data) {
            (Some(called), Some(data)) => if called@ == name && data@.len() >= 4 {
                before.push(context::word(data@.subrange(0, 4)) as i64)
            } else {
                before
            },
            _ => before,
        }
    }
}

fn add_values(numbers: &mut Vec<i64>, values: &Vec<RegistryValue>, name: &str)
    ensures
        final(numbers)@ == with_values(
            old(numbers)@,
            values@,
            name@,
            values@.len() as int,
        ),
{
    let ghost start = numbers@;
    for i in 0..values.len()
        invariant
            numbers@ == with_values(start, values@, name@, i as int),
    {
        if let Some(called) = &values[i].name {
            if let Some(data) = &values[i].data {
                if same_text(called, name) && data.len() >= 4 {
                    numbers.push(
                        word_of(vstd::slice::slice_subrange(data.as_slice(), 0, 4)) as i64,
                    );
                }
            }
        }
    }
}

/// Some numbers, and those below the keys named `Console` among the first of some
/// keys.
pub open spec fn with_keys(
    numbers: Seq<i64>,
    keys: Seq<RegistryKey>,
    name: Seq<char>,
    count: int,
) -> Seq<i64>
    decreases count,
{
    if count <= 0 {
        numbers
    } else {
        let before = with_keys(numbers, keys, name, count - 1);
        match keys[count - 1].name {
            Some(called) => if called@ == "Console"@ {
                with_values(
                    before,
                    keys[count - 1].values@,
                    name,
                    keys[count - 1].values@.len() as int,
                )
            } else {
                before
            },
            None => before,
        }
    }
}

fn add_keys(numbers: &mut Vec<i64>, keys: &Vec<RegistryKey>, name: &str)
    ensures
        final(numbers)@ == with_keys(old(numbers)@, keys@, name@, keys@.len() as int),
{
    let ghost start = numbers@;
    for i in 0..keys.len()
        invariant
            numbers@ == with_keys(start, keys@, name@, i as int),
    {
        if let Some(called) = &keys[i].name {
            if same_text(called, "Console") {
                add_values(numbers, &keys[i].values, name);
            }
        }
    }
}

/// Some numbers, and those below the `Console` keys of the first of some hives.
pub open spec fn with_hives(
    numbers: Seq<i64>,
    hives: Seq<Hive>,
    name: Seq<char>,
    count: int,
) -> Seq<i64>
    decreases count,
{
    if count <= 0 {
        numbers
    } else {
        let before = with_hives(numbers, hives, name, count - 1);
        match hives[count - 1].root {
            Some(root) => with_keys(before, root.subkeys@, name, root.subkeys@.len() as int),
            None => before,
        }
    }
}

/// A console size to search for: the largest of those asked for and of whatever
/// the registry says the system was configured with.
pub open spec fn console_setting(
    context: &Context,
    config: &Configuration,
    option: Seq<char>,
    otherwise: i64,
    name: Seq<char>,
) -> u64 {
    let asked = asked_numbers(config.lookup(option), otherwise);
    largest(
        if config.flag("no_registry"@) {
            asked
        } else {
            match context.windows.hives {
                Some(hives) => with_hives(asked, hives@, name, hives@.len() as int),
                None => asked,
            }
        },
    ) as u64
}

fn read_setting(
    context: &Context,
    config: &Configuration,
    option: &str,
    otherwise: i64,
    name: &str,
) -> (size: u64)
    ensures
        size == console_setting(context, config, option@, otherwise, name@),
{
    let mut numbers = read_numbers(config, option, otherwise);
    // A user hive records the console sizes that user's shells were given.
    if !config.is_set("no_registry") {
        if let Some(hives) = &context.windows.hives {
            let ghost start = numbers@;
            for i in 0..hives.len()
                invariant
                    numbers@ == with_hives(start, hives@, name@, i as int),
            {
                if let Some(root) = &hives[i].root {
                    add_keys(&mut numbers, &root.subkeys, name);
                }
            }
        }
    }
    find_largest(&numbers)
}

/// How many commands a buffer keeps, and how many buffers a console keeps.
#[derive(Clone, Copy, PartialEq, Eq, Structural, Debug)]
pub struct ConsoleSizes {
    pub history: u64,
    pub buffers: u64,
}

/// The console sizes to search for.
pub open spec fn console_sizes(context: &Context, config: &Configuration) -> ConsoleSizes {
    ConsoleSizes {
        history: console_setting(
            context,
            config,
            "max_history"@,
            DEFAULT_HISTORY_SIZE,
            "HistoryBufferSize"@,
        ),
        buffers: console_setting(
            context,
            config,
            "max_buffers"@,
            DEFAULT_BUFFER_COUNT,
            "NumberOfHistoryBuffers"@,
        ),
    }
}

/// The console sizes to search for: those asked for, plus whatever the registry
/// says the system was configured with.
pub fn console_settings(context: &Context, config: &Configuration) -> (sizes: ConsoleSizes)
    ensures
        sizes == console_sizes(context, config),
{
    ConsoleSizes {
        history: read_setting(
            context,
            config,
            "max_history",
            DEFAULT_HISTORY_SIZE,
            "HistoryBufferSize",
        ),
        buffers: read_setting(
            context,
            config,
            "max_buffers",
            DEFAULT_BUFFER_COUNT,
            "NumberOfHistoryBuffers",
        ),
    }
}

/// The columns both console plugins report.
pub open spec fn console_headings() -> Seq<Column> {
    seq![
        Column::integer("PID"),
        Column::string("Process"),
        Column::new("ConsoleInfo", ColumnType::UInt),
        Column::string("Property"),
        Column::new("Address", ColumnType::UInt),
        Column::string("Data"),
    ]
}

fn console_columns() -> (columns: Vec<Column>)
    ensures
        columns@ == console_headings(),
{
    vec![
        Column::integer("PID"),
        Column::string("Process"),
        Column::new("ConsoleInfo", ColumnType::UInt),
        Column::string("Property"),
        Column::new("Address", ColumnType::UInt),
        Column::string("Data"),
    ]
}

/// The options both console plugins take. Only the console listing takes the
/// buffer count.
pub open spec fn console_needs(with_buffers: bool) -> Seq<RequirementView> {
    let needs = seq![
        RequirementView::kernel(),
        RequirementView::new(
            "no_registry"@,
            if with_buffers {
                "Don't search the registry for possible values of CommandHistorySize and HistoryBufferMax"@
            } else {
                "Don't search the registry for possible values of CommandHistorySize"@
            },
            KindView::Bool,
        ).with_default(ConfigView::Bool(false)),
        RequirementView::new(
            "max_history"@,
            "CommandHistorySize values to search for."@,
            KindView::List(Box::new(KindView::Int)),
        ).with_default(ConfigView::List(seq![ConfigView::Int(DEFAULT_HISTORY_SIZE)])),
    ];
    if with_buffers {
        needs.push(
            RequirementView::new(
                "max_buffers"@,
                "HistoryBufferMax values to search for."@,
                KindView::List(Box::new(KindView::Int)),
            ).with_default(ConfigView::List(seq![ConfigView::Int(DEFAULT_BUFFER_COUNT)])),
        )
    } else {
        needs
    }
}

fn size_requirement(name: &str, description: &str, size: i64) -> (requirement: Requirement)
    ensures
        requirement@ == RequirementView::new(
            name@,
            description@,
            KindView::List(Box::new(KindView::Int)),
        ).with_default(ConfigView::List(seq![ConfigView::Int(size)])),
{
    reveal_with_fuel(plugins::kind_view, 3);
    reveal_with_fuel(plugins::config_view, 3);
    let sizes = vec![ConfigValue::Int(size)];
    let default = ConfigValue::List(sizes);
    assert(plugins::config_view(default) == ConfigView::List(seq![ConfigView::Int(size)])) by {
        assert(sizes@ =~= seq![ConfigValue::Int(size)]);
        assert(plugins::config_view(default)->List_0 =~= seq![ConfigView::Int(size)]);
    }
    Requirement::new(
        name,
        description,
        RequirementKind::List(Box::new(RequirementKind::Int)),
    ).with_default(default)
}

/// The options both console plugins take.
///
/// The console host is searched for histories of the sizes the system was
/// configured for, which are either given here or read out of the registry.
/// Only the console listing reports the buffer count.
pub fn console_requirements(with_buffers: bool) -> (requirements: Vec<Requirement>)
    ensures
        plugins::requirement_views(requirements@) == console_needs(with_buffers),
{
    let mut requirements = vec![
        Requirement::kernel(),
        Requirement::new(
            "no_registry",
            if with_buffers {
                "Don't search the registry for possible values of CommandHistorySize and HistoryBufferMax"
            } else {
                "Don't search the registry for possible values of CommandHistorySize"
            },
            RequirementKind::Bool,
        ).with_default(ConfigValue::Bool(false)),
        size_requirement(
            "max_history",
            "CommandHistorySize values to search for.",
            DEFAULT_HISTORY_SIZE,
        ),
    ];
    if with_buffers {
        requirements.push(
            size_requirement(
                "max_buffers",
                "HistoryBufferMax values to search for.",
                DEFAULT_BUFFER_COUNT,
            ),
        );
    }
    assert(plugins::requirement_views(requirements@) =~= console_needs(with_buffers));
    requirements
}

/// A row for a recovered command.
pub open spec fn command_row(pid: u64, name: Seq<char>, address: u64, command: Seq<char>) -> Seq<
    Cell,
> {
    seq![
        Cell::integer(pid as i64),
        Cell::Text(name),
        Cell::hex(address),
        Cell::Text("HistoryBuffer"@),
        Cell::hex(address),
        Cell::Text(command),
    ]
}

/// A report with the first commands of a history buffer.
pub open spec fn with_commands(
    table: Table,
    pid: u64,
    name: Seq<char>,
    address: u64,
    commands: Seq<Seq<char>>,
    count: int,
) -> Table
    decreases count,
{
    if count <= 0 {
        table
    } else {
        with_commands(table, pid, name, address, commands, count - 1).push(
            0,
            command_row(pid, name, address, commands[count - 1]),
        )
    }
}

/// The smaller of a length and a limit.
pub open spec fn limited(length: nat, limit: u64) -> int {
    if limit < length {
        limit as int
    } else {
        length as int
    }
}

fn limit_to(length: usize, limit: u64) -> (count: usize)
    ensures
        count == limited(length as nat, limit),
        count <= length,
{
    if limit < length as u64 {
        limit as usize
    } else {
        length
    }
}

fn add_commands(
    grid: &mut TreeGrid,
    pid: u64,
    name: &str,
    address: u64,
    commands: &Vec<String>,
    limit: u64,
)
    ensures
        final(grid)@ == with_commands(
            old(grid)@,
            pid,
            name@,
            address,
            text::texts(commands@),
            limited(commands@.len(), limit),
        ),
{
    let ghost start = grid@;
    let total: usize = limit_to(commands.len(), limit);
    for i in 0..total
        invariant
            total <= commands@.len(),
            grid@ == with_commands(
                start,
                pid,
                name@,
                address,
                text::texts(commands@),
                i as int,
            ),
    {
        let row = Row::new().with(Value::integer(pid as i64)).with(Value::string(name)).with(
            Value::hex(address),
        ).with(Value::string("HistoryBuffer")).with(Value::hex(address)).with(
            Value::string(&commands[i]),
        );
        assert(row@ == command_row(pid, name@, address, text::texts(commands@)[i as int]));
        grid.push(0, row);
    }
}

/// A report with the first of some history buffers.
pub open spec fn with_buffers(
    table: Table,
    pid: u64,
    name: Seq<char>,
    start: u64,
    limit: u64,
    histories: Seq<(int, Seq<Seq<char>>)>,
    count: int,
) -> Table
    decreases count,
{
    if count <= 0 {
        table
    } else {
        with_commands(
            with_buffers(table, pid, name, start, limit, histories, count - 1),
            pid,
            name,
            start.wrapping_add(histories[count - 1].0 as u64),
            histories[count - 1].1,
            limited(histories[count - 1].1.len(), limit),
        )
    }
}

/// Where a range of a process's memory begins and how much of it is searched, if
/// it can hold a history: the history lives in the host's private heap, which is
/// writable and backed by no file.
pub open spec fn searched(vad: &Vad) -> Option<(u64, usize)> {
    match (vad.protection, vad.start, vad.end) {
        (Some(protection), Some(start), Some(end)) => if text::holds(protection@, "READWRITE"@)
            && vad.file_name is None {
            let span = if end < start {
                0
            } else {
                end - start
            };
            Some(
                (
                    start,
                    (if span >= MAX_RANGE {
                        MAX_RANGE as int
                    } else {
                        span + 1
                    }) as usize,
                ),
            )
        } else {
            None
        },
        _ => None,
    }
}

fn find_searched(vad: &Vad) -> (range: Option<(u64, usize)>)
    ensures
        range == searched(vad),
{
    match (&vad.protection, vad.start, vad.end) {
        (Some(protection), Some(start), Some(end)) => if contains(protection, "READWRITE")
            && vad.file_name.is_none() {
            let span: u64 = if end < start {
                0
            } else {
                end - start
            };
            let length: usize = if span >= MAX_RANGE {
                0x400000
            } else {
                (span + 1) as usize
            };
            Some((start, length))
        } else {
            None
        },
        _ => None,
    }
}

/// A report with the history in one range of memory. A console keeps a bounded
/// number of buffers, each holding a bounded number of commands.
#[verifier::opaque]
pub open spec fn with_range(
    context: &Context,
    sizes: ConsoleSizes,
    layer: usize,
    table: Table,
    pid: u64,
    name: Seq<char>,
    vad: &Vad,
) -> Table {
    match searched(vad) {
        Some((start, length)) => match context.bytes_of(layer, start, length, true) {
            Some(data) => {
                let histories = histories_from(data, 0);
                with_buffers(
                    table,
                    pid,
                    name,
                    start,
                    sizes.history,
                    histories,
                    limited(histories.len(), sizes.buffers),
                )
            },
            None => table,
        },
        None => table,
    }
}

fn add_range(
    context: &Context,
    sizes: ConsoleSizes,
    layer: usize,
    grid: &mut TreeGrid,
    pid: u64,
    name: &str,
    vad: &Vad,
)
    ensures
        final(grid)@ == with_range(context, sizes, layer, old(grid)@, pid, name@, vad),
{
    reveal(with_range);
    let ghost before = grid@;
    if let Some((start, length)) = find_searched(vad) {
        if let Some(data) = context.read(layer, start, length, true) {
            let results = find_history(data.as_slice());
            let ghost histories = history_views(results@);
            let total: usize = limit_to(results.len(), sizes.buffers);
            for i in 0..total
                invariant
                    total <= results@.len(),
                    histories == history_views(results@),
                    grid@ == with_buffers(
                        before,
                        pid,
                        name@,
                        start,
                        sizes.history,
                        histories,
                        i as int,
                    ),
            {
                assert(histories[i as int].1 == text::texts(results@[i as int].1@));
                assert(histories[i as int].1.len() == results@[i as int].1@.len());
                add_commands(
                    grid,
                    pid,
                    name,
                    start.wrapping_add(results[i].0 as u64),
                    &results[i].1,
                    sizes.history,
                );
            }
        }
    }
}

/// A report with the history in the first of some ranges of memory.
pub open spec fn with_ranges(
    context: &Context,
    sizes: ConsoleSizes,
    layer: usize,
    table: Table,
    pid: u64,
    name: Seq<char>,
    vads: Seq<&Vad>,
    count: int,
) -> Table
    decreases count,
{
    if count <= 0 {
        table
    } else {
        with_range(
            context,
            sizes,
            layer,
            with_ranges(context, sizes, layer, table, pid, name, vads, count - 1),
            pid,
            name,
            vads[count - 1],
        )
    }
}

/// A report with the history of one process, if it hosts a console.
#[verifier::opaque]
pub open spec fn with_process(
    context: &Context,
    sizes: ConsoleSizes,
    physical: Seq<char>,
    table: Table,
    process: Object,
) -> Table {
    let name = context.image_name_or_empty(process);
    match (context.pid(process), context.layer_of(process, physical)) {
        (Some(pid), Some(layer)) => if text::lower(CONSOLE_HOST@) == text::lower(name) {
            let vads = symbols::windows::vads_of(context.windows.vads@, process.offset);
            with_ranges(context, sizes, layer, table, pid, name, vads, vads.len() as int)
        } else {
            table
        },
        _ => table,
    }
}

fn add_process(
    context: &Context,
    sizes: ConsoleSizes,
    physical: &str,
    grid: &mut TreeGrid,
    process: Object,
)
    ensures
        final(grid)@ == with_process(context, sizes, physical@, old(grid)@, process),
{
    reveal(with_process);
    let ghost before = grid@;
    let name = context.image_file_name_or_empty(process);
    if let Some(pid) = context.pid(process) {
        if same_ignoring_case(CONSOLE_HOST, &name) {
            if let Some(layer) = context.address_space(process, physical) {
                let vads = walk_vad_tree(context, process);
                for i in 0..vads.len()
                    invariant
                        grid@ == with_ranges(
                            context,
                            sizes,
                            layer,
                            before,
                            pid,
                            name@,
                            vads@,
                            i as int,
                        ),
                {
                    add_range(context, sizes, layer, grid, pid, &name, vads[i]);
                }
            }
        }
    }
}

/// The report on the first of some processes.
pub open spec fn reported(
    context: &Context,
    sizes: ConsoleSizes,
    physical: Seq<char>,
    processes: Seq<Object>,
    count: int,
) -> Table
    decreases count,
{
    if count <= 0 {
        Table::empty(console_headings())
    } else {
        with_process(
            context,
            sizes,
            physical,
            reported(context, sizes, physical, processes, count - 1),
            processes[count - 1],
        )
    }
}

/// The history that each console host's writable memory holds.
pub open spec fn console_report(context: &Context, config: &Configuration) -> Result<Table, Failure> {
    match plugins::windows::kernel_of(context, config) {
        Some(kernel) => match plugins::windows::chosen(context, &kernel, config) {
            Some(processes) => Ok(
                reported(
                    context,
                    console_sizes(context, config),
                    plugins::windows::physical_name(config),
                    processes,
                    processes.len() as int,
                ),
            ),
            None => Err(Failure::Unavailable),
        },
        None => Err(plugins::windows::no_kernel()),
    }
}

/// Search each console host's writable memory for command history.
pub fn run_console_scan(context: &Context, config: &Configuration) -> (result: Result<
    TreeGrid,
    VolatilityError,
>)
    ensures
        error::outcome(result) == console_report(context, config),
{
    let kernel = kernel_module(context, config)?;
    let physical = physical_layer(config);
    let sizes = console_settings(context, config);
    let processes = chosen_processes(context, kernel, config)?;
    let mut grid = TreeGrid::new(console_columns());
    for i in 0..processes.len()
        invariant
            grid@ == reported(context, sizes, physical@, processes@, i as int),
    {
        add_process(context, sizes, &physical, &mut grid, processes[i]);
    }
    Ok(grid)
}

impl Plugin for Consoles {
    open spec fn named(&self) -> Seq<char> {
        "windows.consoles.Consoles"@
    }

    open spec fn described(&self) -> Seq<char> {
        "Looks for Windows console buffers"@
    }

    open spec fn needs(&self) -> Seq<RequirementView> {
        console_needs(true)
    }

    open spec fn headings(&self) -> Seq<Column> {
        console_headings()
    }

    open spec fn system(&self) -> OperatingSystem {
        OperatingSystem::Windows
    }

    open spec fn report(&self, context: &Context, config: &Configuration) -> Result<Table, Failure> {
        console_report(context, config)
    }

    fn name(&self) -> (name: &'static str) {
        "windows.consoles.Consoles"
    }

    fn description(&self) -> (description: &'static str) {
        "Looks for Windows console buffers"
    }

    fn requirements(&self) -> (requirements: Vec<Requirement>) {
        console_requirements(true)
    }

    fn operating_system(&self) -> (system: OperatingSystem) {
        OperatingSystem::Windows
    }

    fn columns(&self) -> (columns: Vec<Column>) {
        console_columns()
    }

    fn epilog(&self) -> (epilog: Option<&'static str>) {
        None
    }

    fn timeline(&self, context: &Context, config: &Configuration) -> (timeline: Option<
        plugins::Timeline,
    >) {
        None
    }

    fn needs_kernel(&self) -> (needed: bool) {
        false
    }

    fn run(&self, context: &Context, config: &Configuration) -> (result: Result<TreeGrid, VolatilityError>) {
        run_console_scan(context, config)
    }
}

impl Plugin for CmdScan {
    open spec fn named(&self) -> Seq<char> {
        "windows.cmdscan.CmdScan"@
    }

    open spec fn described(&self) -> Seq<char> {
        "Looks for Windows Command History lists"@
    }

    open spec fn needs(&self) -> Seq<RequirementView> {
        console_needs(false)
    }

    open spec fn headings(&self) -> Seq<Column> {
        console_headings()
    }

    open spec fn system(&self) -> OperatingSystem {
        OperatingSystem::Windows
    }

    open spec fn report(&self, context: &Context, config: &Configuration) -> Result<Table, Failure> {
        console_report(context, config)
    }

    fn name(&self) -> (name: &'static str) {
        "windows.cmdscan.CmdScan"
    }

    fn description(&self) -> (description: &'static str) {
        "Looks for Windows Command History lists"
    }

    fn requirements(&self) -> (requirements: Vec<Requirement>) {
        console_requirements(false)
    }

    fn operating_system(&self) -> (system: OperatingSystem) {
        OperatingSystem::Windows
    }

    fn columns(&self) -> (columns: Vec<Column>) {
        console_columns()
    }

    fn epilog(&self) -> (epilog: Option<&'static str>) {
        None
    }

    fn timeline(&self, context: &Context, config: &Configuration) -> (timeline: Option<
        plugins::Timeline,
    >) {
        None
    }

    fn needs_kernel(&self) -> (needed: bool) {
        false
    }

    fn run(&self, context: &Context, config: &Configuration) -> (result: Result<TreeGrid, VolatilityError>) {
        run_console_scan(context, config)
    }
}

} // verus!
