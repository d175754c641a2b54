//! The plugin interface and registry.
//!
//! A plugin declares what configuration it needs, what columns it produces, and
//! how to fill them in. Everything else (argument parsing, layer stacking,
//! rendering) is handled by the framework around it.

pub mod mac;
pub mod output;
pub mod registry;
pub mod timeline_helpers;
pub mod tree;
pub mod windows;

pub use crate::plugins::registry::{Alias, PluginEntry, PluginRegistry};

use crate::config::{ConfigValue, Configuration};
use crate::context::Context;
use crate::error::VolatilityError;
use crate::renderers::{Column, TreeGrid, Value};
use vstd::prelude::*;

verus! {

/// The type of a configuration option a plugin accepts.
#[derive(Debug, PartialEq)]
pub enum RequirementKind {
    Int,
    String,
    Bool,
    Bytes,
    /// Repeated values of the inner kind.
    List(Box<RequirementKind>),
    /// A string restricted to a fixed set.
    Choice(Vec<std::string::String>),
    /// The kernel module and symbols the plugin operates on.
    Kernel,
    /// A layer name.
    TranslationLayer,
}

/// What an option's type says.
pub enum KindView {
    Int,
    String,
    Bool,
    Bytes,
    List(Box<KindView>),
    Choice(Seq<Seq<char>>),
    Kernel,
    TranslationLayer,
}

/// What an option's type says.
pub open spec fn kind_view(kind: RequirementKind) -> KindView
    decreases kind,
{
    match kind {
        RequirementKind::Int => KindView::Int,
        RequirementKind::String => KindView::String,
        RequirementKind::Bool => KindView::Bool,
        RequirementKind::Bytes => KindView::Bytes,
        RequirementKind::List(inner) => KindView::List(Box::new(kind_view(*inner))),
        RequirementKind::Choice(choices) => KindView::Choice(crate::text::texts(choices@)),
        RequirementKind::Kernel => KindView::Kernel,
        RequirementKind::TranslationLayer => KindView::TranslationLayer,
    }
}

impl View for RequirementKind {
    type V = KindView;

    open spec fn view(&self) -> KindView {
        kind_view(*self)
    }
}

/// What a default value says.
pub enum ConfigView {
    Int(i64),
    Str(Seq<char>),
    Bool(bool),
    Bytes(Seq<u8>),
    List(Seq<ConfigView>),
}

/// What a default value says.
pub open spec fn config_view(value: ConfigValue) -> ConfigView
    decreases value,
{
    match value {
        ConfigValue::Int(number) => ConfigView::Int(number),
        ConfigValue::Str(text) => ConfigView::Str(text@),
        ConfigValue::Bool(flag) => ConfigView::Bool(flag),
        ConfigValue::Bytes(bytes) => ConfigView::Bytes(bytes@),
        ConfigValue::List(list) => ConfigView::List(
            Seq::new(
                list@.len(),
                |i: int|
                    if 0 <= i < list@.len() {
                        config_view(list@[i])
                    } else {
                        ConfigView::Bool(false)
                    },
            ),
        ),
    }
}

fn copy_value(value: &ConfigValue) -> (copy: ConfigValue)
    ensures
        config_view(copy) == config_view(*value),
    decreases value,
{
    reveal_with_fuel(config_view, 2);
    match value {
        ConfigValue::Int(number) => ConfigValue::Int(*number),
        ConfigValue::Str(text) => ConfigValue::Str(text.clone()),
        ConfigValue::Bool(flag) => ConfigValue::Bool(*flag),
        ConfigValue::Bytes(bytes) => ConfigValue::Bytes(crate::context::copy_bytes(bytes)),
        ConfigValue::List(list) => {
            let mut copies: Vec<ConfigValue> = Vec::new();
            for i in 0..list.len()
                invariant
                    *value == ConfigValue::List(*list),
                    copies@.len() == i,
                    forall|j: int|
                        0 <= j < i ==> config_view(#[trigger] copies@[j]) == config_view(list@[j]),
            {
                assert(decreases_to!(value->List_0 => list@[i as int]));
                copies.push(copy_value(&list[i]));
            }
            let copy = ConfigValue::List(copies);
            assert(config_view(copy)->List_0 =~= config_view(*value)->List_0);
            copy
        },
    }
}

impl Clone for ConfigValue {
    fn clone(&self) -> (copy: ConfigValue)
        ensures
            config_view(copy) == config_view(*self),
    {
        copy_value(self)
    }
}

fn copy_kind(kind: &RequirementKind) -> (copy: RequirementKind)
    ensures
        kind_view(copy) == kind_view(*kind),
    decreases kind,
{
    reveal_with_fuel(kind_view, 2);
    match kind {
        RequirementKind::Int => RequirementKind::Int,
        RequirementKind::String => RequirementKind::String,
        RequirementKind::Bool => RequirementKind::Bool,
        RequirementKind::Bytes => RequirementKind::Bytes,
        RequirementKind::List(inner) => RequirementKind::List(Box::new(copy_kind(inner))),
        RequirementKind::Choice(choices) => {
            let mut copies: Vec<std::string::String> = Vec::new();
            for i in 0..choices.len()
                invariant
                    crate::text::texts(copies@) == crate::text::texts(choices@).take(i as int),
            {
                crate::text::push_text(&mut copies, choices[i].clone());
            }
            assert(crate::text::texts(copies@) =~= crate::text::texts(choices@));
            RequirementKind::Choice(copies)
        },
        RequirementKind::Kernel => RequirementKind::Kernel,
        RequirementKind::TranslationLayer => RequirementKind::TranslationLayer,
    }
}

impl Clone for RequirementKind {
    fn clone(&self) -> (copy: RequirementKind)
        ensures
            copy@ == self@,
    {
        copy_kind(self)
    }
}

/// One configuration option.
#[derive(Debug)]
pub struct Requirement {
    pub name: std::string::String,
    pub description: std::string::String,
    pub kind: RequirementKind,
    pub optional: bool,
    pub default: Option<ConfigValue>,
    /// The architectures a layer requirement will accept, where it insists on
    /// any. A requirement that names them needs a layer the processor's own
    /// paging describes, not merely the bytes of the image.
    pub architectures: Option<&'static [&'static str]>,
}

/// What a configuration option says.
pub struct RequirementView {
    pub name: Seq<char>,
    pub description: Seq<char>,
    pub kind: KindView,
    pub optional: bool,
    pub default: Option<ConfigView>,
    pub architectures: Option<Seq<&'static str>>,
}

impl View for Requirement {
    type V = RequirementView;

    open spec fn view(&self) -> RequirementView {
        RequirementView {
            name: self.name@,
            description: self.description@,
            kind: self.kind@,
            optional: self.optional,
            default: match self.default {
                Some(value) => Some(config_view(value)),
                None => None,
            },
            architectures: match self.architectures {
                Some(list) => Some(list@),
                None => None,
            },
        }
    }
}

impl Clone for Requirement {
    fn clone(&self) -> (copy: Requirement)
        ensures
            copy@ == self@,
    {
        Requirement {
            name: self.name.clone(),
            description: self.description.clone(),
            kind: copy_kind(&self.kind),
            optional: self.optional,
            default: match &self.default {
                Some(value) => Some(copy_value(value)),
                None => None,
            },
            architectures: self.architectures,
        }
    }
}

/// What a list of configuration options says.
pub open spec fn requirement_views(list: Seq<Requirement>) -> Seq<RequirementView> {
    Seq::new(list.len(), |i: int| list[i]@)
}

impl RequirementView {
    pub open spec fn new(name: Seq<char>, description: Seq<char>, kind: KindView) -> Self {
        RequirementView {
            name,
            description,
            kind,
            optional: true,
            default: None,
            architectures: None,
        }
    }

    pub open spec fn for_architectures(self, architectures: Seq<&'static str>) -> Self {
        RequirementView { architectures: Some(architectures), ..self }
    }

    pub open spec fn required(self) -> Self {
        RequirementView { optional: false, ..self }
    }

    pub open spec fn with_default(self, default: ConfigView) -> Self {
        RequirementView { default: Some(default), ..self }
    }

    pub open spec fn kernel() -> Self {
        RequirementView::new(
            "kernel"@,
            "The kernel module and its symbol table"@,
            KindView::Kernel,
        ).required()
    }

    pub open spec fn pids_filter(description: Seq<char>) -> Self {
        RequirementView::new("pids"@, description, KindView::List(Box::new(KindView::Int)))
    }

    pub open spec fn pid_filter(description: Seq<char>) -> Self {
        RequirementView::new("pid"@, description, KindView::List(Box::new(KindView::Int)))
    }
}

impl Requirement {
    pub fn new(name: &str, description: &str, kind: RequirementKind) -> (requirement: Requirement)
        ensures
            requirement@ == RequirementView::new(name@, description@, kind@),
    {
        Requirement {
            name: name.to_owned(),
            description: description.to_owned(),
            kind,
            optional: true,
            default: None,
            architectures: None,
        }
    }

    /// Restrict a layer requirement to the architectures it can work with.
    pub fn for_architectures(self, architectures: &'static [&'static str]) -> (requirement:
        Requirement)
        ensures
            requirement@ == self@.for_architectures(architectures@),
    {
        let mut requirement = self;
        requirement.architectures = Some(architectures);
        requirement
    }

    /// Mark the requirement as one the plugin cannot run without.
    pub fn required(self) -> (requirement: Requirement)
        ensures
            requirement@ == self@.required(),
    {
        let mut requirement = self;
        requirement.optional = false;
        requirement
    }

    pub fn with_default(self, default: ConfigValue) -> (requirement: Requirement)
        ensures
            requirement@ == self@.with_default(config_view(default)),
    {
        let mut requirement = self;
        requirement.default = Some(default);
        requirement
    }

    /// The kernel requirement almost every OS plugin declares.
    pub fn kernel() -> (requirement: Requirement)
        ensures
            requirement@ == RequirementView::kernel(),
    {
        Requirement::new(
            "kernel",
            "The kernel module and its symbol table",
            RequirementKind::Kernel,
        ).required()
    }

    /// The same filter under the name some plugins give it.
    ///
    /// The wording of the description varies from plugin to plugin, so each
    /// caller supplies its own.
    pub fn pids_filter(description: &str) -> (requirement: Requirement)
        ensures
            requirement@ == RequirementView::pids_filter(description@),
    {
        reveal_with_fuel(kind_view, 2);
        Requirement::new(
            "pids",
            description,
            RequirementKind::List(Box::new(RequirementKind::Int)),
        )
    }

    /// The conventional `--pid` filter.
    pub fn pid_filter(description: &str) -> (requirement: Requirement)
        ensures
            requirement@ == RequirementView::pid_filter(description@),
    {
        reveal_with_fuel(kind_view, 2);
        Requirement::new(
            "pid",
            description,
            RequirementKind::List(Box::new(RequirementKind::Int)),
        )
    }
}

/// The four kinds of timestamp a timeline distinguishes.
#[derive(Debug, Clone, Copy, PartialEq, Eq, Structural)]
pub enum TimeKind {
    Created,
    Modified,
    Accessed,
    Changed,
}

/// One timestamp of a timeline.
#[derive(Debug)]
pub struct Moment {
    pub description: std::string::String,
    pub kind: TimeKind,
    pub time: Value,
}

/// What one timestamp of a timeline says.
#[verifier::ext_equal]
pub struct MomentView {
    pub description: Seq<char>,
    pub kind: TimeKind,
    pub time: crate::renderers::Cell,
}

impl View for Moment {
    type V = MomentView;

    open spec fn view(&self) -> MomentView {
        MomentView { description: self.description@, kind: self.kind, time: self.time@ }
    }
}

/// The timestamps a plugin contributes to the timeline.
///
/// `failed` records that the plugin stopped early, which matters because the
/// timeline plugin treats a plugin that stopped differently from one that simply
/// had nothing to say.
#[derive(Debug)]
pub struct Timeline {
    pub entries: Vec<Moment>,
    pub failed: bool,
}

/// What a timeline says.
#[verifier::ext_equal]
pub struct TimelineView {
    pub entries: Seq<MomentView>,
    pub failed: bool,
}

impl View for Timeline {
    type V = TimelineView;

    open spec fn view(&self) -> TimelineView {
        TimelineView {
            entries: Seq::new(self.entries@.len(), |i: int| self.entries@[i]@),
            failed: self.failed,
        }
    }
}

impl Timeline {
    /// A timeline without timestamps.
    pub fn new() -> (timeline: Timeline)
        ensures
            timeline@ == (TimelineView { entries: Seq::empty(), failed: false }),
    {
        Timeline { entries: Vec::new(), failed: false }
    }

    /// Add a timestamp at the end.
    pub fn push(&mut self, description: &str, kind: TimeKind, time: Value)
        ensures
            final(self)@ == (TimelineView {
                entries: old(self)@.entries.push(
                    MomentView { description: description@, kind, time: time@ },
                ),
                ..old(self)@
            }),
    {
        self.entries.push(Moment { description: description.to_owned(), kind, time });
        assert(self@.entries =~= old(self)@.entries.push(
            MomentView { description: description@, kind, time: time@ },
        ));
    }
}

impl Default for Timeline {
    fn default() -> (timeline: Timeline)
        ensures
            timeline@ == (TimelineView { entries: Seq::empty(), failed: false }),
    {
        Timeline::new()
    }
}

/// The system an image was taken from.
#[derive(Debug, Clone, Copy, PartialEq, Eq, Structural)]
pub enum OperatingSystem {
    Windows,
    Linux,
    Mac,
    /// Applies regardless of the image's operating system.
    Any,
}

impl OperatingSystem {
    pub fn as_str(&self) -> (name: &'static str)
        ensures
            name@ == match self {
                OperatingSystem::Windows => "windows"@,
                OperatingSystem::Linux => "linux"@,
                OperatingSystem::Mac => "mac"@,
                OperatingSystem::Any => "any"@,
            },
    {
        match self {
            OperatingSystem::Windows => "windows",
            OperatingSystem::Linux => "linux",
            OperatingSystem::Mac => "mac",
            OperatingSystem::Any => "any",
        }
    }
}

/// What an optional note says.
pub open spec fn note_view(note: Option<&'static str>) -> Option<Seq<char>> {
    match note {
        Some(note) => Some(note@),
        None => None,
    }
}

/// What an optional timeline says.
pub open spec fn timeline_view(timeline: Option<Timeline>) -> Option<TimelineView> {
    match timeline {
        Some(timeline) => Some(timeline@),
        None => None,
    }
}

/// What a plugin needs and what it produces.
pub trait Plugin: Send + Sync {
    /// The name the plugin is invoked by.
    spec fn named(&self) -> Seq<char>;

    /// What the plugin says of itself.
    spec fn described(&self) -> Seq<char>;

    /// The options the plugin accepts.
    spec fn needs(&self) -> Seq<RequirementView>;

    /// The columns of the plugin's report.
    spec fn headings(&self) -> Seq<Column>;

    /// The system the plugin is for.
    spec fn system(&self) -> OperatingSystem;

    /// What the plugin reports of an image.
    spec fn report(&self, context: &Context, config: &Configuration) -> Result<
        crate::renderers::Table,
        crate::error::Failure,
    >;

    /// What the plugin's documentation says after its options, if anything.
    open spec fn note(&self) -> Option<Seq<char>> {
        None
    }

    /// The timestamps the plugin contributes to a timeline, if it reports times.
    open spec fn moments(&self, context: &Context, config: &Configuration) -> Option<TimelineView> {
        None
    }

    /// Whether the image's kernel has to be identified first for a plugin that
    /// declares no kernel of its own.
    open spec fn kernel_first(&self) -> bool {
        false
    }

    /// The dotted name the plugin is invoked by, such as `windows.pslist.PsList`.
    fn name(&self) -> (name: &'static str)
        ensures
            name@ == self.named(),
    ;

    /// One line describing what the plugin reports.
    fn description(&self) -> (description: &'static str)
        ensures
            description@ == self.described(),
    ;

    /// The rest of the plugin's documentation, printed after its options.
    fn epilog(&self) -> (epilog: Option<&'static str>)
        ensures
            note_view(epilog) == self.note(),
    ;

    /// Configuration options the plugin accepts.
    fn requirements(&self) -> (requirements: Vec<Requirement>)
        ensures
            requirement_views(requirements@) == self.needs(),
    ;

    /// The columns the plugin's output has.
    fn columns(&self) -> (columns: Vec<Column>)
        ensures
            columns@ == self.headings(),
    ;

    /// Produce the plugin's output.
    fn run(&self, context: &Context, config: &Configuration) -> (result: Result<
        TreeGrid,
        VolatilityError,
    >)
        ensures
            crate::error::outcome(result) == self.report(context, config),
    ;

    /// The timestamps this plugin can contribute to a timeline.
    ///
    /// A plugin that reports no times returns nothing and is left out of the
    /// timeline entirely.
    fn timeline(&self, context: &Context, config: &Configuration) -> (timeline: Option<Timeline>)
        ensures
            timeline_view(timeline) == self.moments(context, config),
    ;

    /// Operating system the plugin applies to, used to filter the plugin list
    /// for an image once its OS is known.
    fn operating_system(&self) -> (system: OperatingSystem)
        ensures
            system == self.system(),
    ;

    /// Whether the image's kernel has to be identified before the plugin runs,
    /// for a plugin that declares no kernel of its own because it runs others.
    fn needs_kernel(&self) -> (needed: bool)
        ensures
            needed == self.kernel_first(),
    ;
}

/// The numbers in a list of option values, in order.
pub open spec fn pids_in(values: Seq<ConfigValue>) -> Seq<u64>
    decreases values.len(),
{
    if values.len() == 0 {
        Seq::empty()
    } else {
        match values.last() {
            ConfigValue::Int(number) => pids_in(values.drop_last()).push(number as u64),
            _ => pids_in(values.drop_last()),
        }
    }
}

/// The numbers given for a repeated option.
pub open spec fn option_numbers(value: Option<ConfigValue>) -> Seq<u64> {
    match value {
        Some(ConfigValue::List(values)) => pids_in(values@),
        _ => Seq::empty(),
    }
}

/// The integers given for a repeated option.
pub fn int_list(config: &Configuration, name: &str) -> (list: Vec<u64>)
    ensures
        list@ == option_numbers(config.lookup(name@)),
{
    let mut list: Vec<u64> = Vec::new();
    if let Some(ConfigValue::List(values)) = config.get(name) {
        for i in 0..values.len()
            invariant
                list@ == pids_in(values@.take(i as int)),
        {
            assert(values@.take(i + 1).drop_last() =~= values@.take(i as int));
            if let Some(number) = values[i].as_int() {
                list.push(number as u64);
            }
        }
        assert(values@.take(values@.len() as int) =~= values@);
    }
    list
}

/// The process filter an option holds: a number, or a list with a number in it.
pub open spec fn pid_list(value: Option<ConfigValue>) -> Option<Seq<u64>> {
    match value {
        Some(ConfigValue::List(values)) => if pids_in(values@).len() == 0 {
            None
        } else {
            Some(pids_in(values@))
        },
        Some(ConfigValue::Int(number)) => Some(seq![number as u64]),
        _ => None,
    }
}

/// The filter that an optional list of numbers is.
pub open spec fn filter_view(filter: Option<Vec<u64>>) -> Option<Seq<u64>> {
    match filter {
        Some(pids) => Some(pids@),
        None => None,
    }
}

/// Whether a number passes a filter: without one, every number does.
pub open spec fn passes(filter: Option<Seq<u64>>, pid: u64) -> bool {
    filter is Some ==> filter->0.contains(pid)
}

/// Without a filter every process passes, and with one only those it names.
pub proof fn law_no_filter_passes_every_process(filter: Option<Seq<u64>>, pid: u64)
    ensures
        filter is None ==> passes(filter, pid),
        filter matches Some(pids) ==> (passes(filter, pid) <==> pids.contains(pid)),
{
}

/// The process filter for plugins that name the option `pids`.
pub fn pids_filter(config: &Configuration) -> (filter: Option<Vec<u64>>)
    ensures
        filter_view(filter) == pid_list(config.lookup("pids"@)),
{
    read_pid_list(config, "pids")
}

/// Read the conventional `pid` filter from configuration.
pub fn pid_filter(config: &Configuration) -> (filter: Option<Vec<u64>>)
    ensures
        filter_view(filter) == pid_list(config.lookup("pid"@)),
{
    read_pid_list(config, "pid")
}

fn read_pid_list(config: &Configuration, name: &str) -> (filter: Option<Vec<u64>>)
    ensures
        filter_view(filter) == pid_list(config.lookup(name@)),
{
    match config.get(name) {
        Some(ConfigValue::List(values)) => {
            let mut pids: Vec<u64> = Vec::new();
            for i in 0..values.len()
                invariant
                    pids@ == pids_in(values@.take(i as int)),
            {
                assert(values@.take(i + 1).drop_last() =~= values@.take(i as int));
                if let Some(number) = values[i].as_int() {
                    pids.push(number as u64);
                }
            }
            assert(values@.take(values@.len() as int) =~= values@);
            if pids.is_empty() {
                None
            } else {
                Some(pids)
            }
        },
        Some(other) => match other.as_int() {
            Some(number) => Some(vec![number as u64]),
            None => None,
        },
        None => None,
    }
}

/// Whether a PID passes the configured filter.
pub fn pid_matches(filter: &Option<Vec<u64>>, pid: u64) -> (matches: bool)
    ensures
        matches == passes(filter_view(*filter), pid),
{
    match filter {
        Some(pids) => crate::lists::is_among(pids, pid),
        None => true,
    }
}

/// Which of the first bytes of a range the layer has no memory behind.
pub open spec fn unmapped(context: &Context, layer: usize, start: u64, count: nat) -> Seq<usize>
    decreases count,
{
    if count == 0 {
        Seq::empty()
    } else {
        let before = unmapped(context, layer, start, (count - 1) as nat);
        if start + count - 1 <= u64::MAX && context.is_valid(layer, (start + count - 1) as u64, 1) {
            before
        } else {
            before.push((count - 1) as usize)
        }
    }
}

/// Which of a range's bytes the layer has no memory behind.
fn unmapped_bytes(context: &Context, layer: usize, start: u64, length: usize) -> (missing: Vec<usize>)
    ensures
        missing@ == unmapped(context, layer, start, length as nat),
{
    let mut missing: Vec<usize> = Vec::new();
    for i in 0..length
        invariant
            missing@ == unmapped(context, layer, start, i as nat),
    {
        let held = match start.checked_add(i as u64) {
            Some(address) => context.is_valid(layer, address, 1),
            None => false,
        };
        if !held {
            missing.push(i);
        }
    }
    missing
}

/// A run of bytes of a layer, with the places of those that it does not hold.
pub open spec fn layer_cell(context: &Context, layer: usize, offset: u64, length: usize) -> Option<
    crate::renderers::Cell,
> {
    match context.bytes_of(layer, offset, length, true) {
        Some(bytes) if bytes.len() > 0 => Some(
            crate::renderers::Cell::LayerDump(
                unmapped(context, layer, offset, length as nat),
                bytes,
            ),
        ),
        _ => None,
    }
}

/// A run of bytes read out of a layer.
///
/// Bytes the layer does not actually hold are marked rather than shown as the
/// zeroes a padded read supplies, so a match recovered in part is visibly
/// different from one recovered whole.
pub fn layer_data(context: &Context, layer: usize, offset: u64, length: usize) -> (value: Option<
    Value,
>)
    ensures
        match value {
            Some(value) => layer_cell(context, layer, offset, length) == Some(value@),
            None => layer_cell(context, layer, offset, length) is None,
        },
{
    match context.read(layer, offset, length, true) {
        Some(bytes) => if bytes.is_empty() {
            None
        } else {
            Some(
                Value::LayerDump {
                    missing: unmapped_bytes(context, layer, offset, length),
                    bytes,
                },
            )
        },
        None => None,
    }
}

/// A run of bytes that the layer holds whole is shown with no byte marked.
pub proof fn law_whole_run_has_no_marks(context: &Context, layer: usize, start: u64, length: usize)
    requires
        context.is_valid(layer, start, length),
    ensures
        unmapped(context, layer, start, length as nat).len() == 0,
{
    lemma_no_marks(context, layer, start, length, length as nat);
}

proof fn lemma_no_marks(context: &Context, layer: usize, start: u64, length: usize, count: nat)
    requires
        context.is_valid(layer, start, length),
        count <= length,
    ensures
        unmapped(context, layer, start, count).len() == 0,
    decreases count,
{
    if count > 0 {
        lemma_no_marks(context, layer, start, length, (count - 1) as nat);
        let space = context.layers@[layer as int];
        assert(space.byte(start as int + (count - 1)) is Some);
    }
}

} // verus!
