//! The registry of plugins and the options that they share.

use memory_plugins::config::{ConfigValue, Configuration};
use memory_plugins::plugins::mac::lsof::Lsof;
use memory_plugins::plugins::registry::{Alias, PluginRegistry};
use memory_plugins::plugins::windows::etwpatch::EtwPatch;
use memory_plugins::plugins::{pid_filter, pid_matches, pids_filter, OperatingSystem, Plugin};

#[test]
fn registry_resolves_plugins_by_name() {
    let registry = PluginRegistry::new();
    assert!(!registry.is_empty());
    // Every registered plugin is retrievable by its own name.
    for entry in registry.all() {
        let found = registry.get(entry.plugin.name());
        assert!(found.is_some());
        assert_eq!(found.unwrap().plugin.name(), entry.plugin.name());
    }
}

#[test]
fn plugin_names_are_unique() {
    let registry = PluginRegistry::new();
    let mut names: Vec<&str> = registry.all().iter().map(|entry| entry.plugin.name()).collect();
    let total = names.len();
    names.sort_unstable();
    names.dedup();
    assert_eq!(names.len(), total, "duplicate plugin names registered");
}

#[test]
fn pid_filter_accepts_a_single_value_or_a_list() {
    let mut config = Configuration::new();
    assert!(pid_filter(&config).is_none());

    config.set("pid", ConfigValue::Int(4));
    assert_eq!(pid_filter(&config), Some(vec![4]));

    config.set(
        "pid",
        ConfigValue::List(vec![ConfigValue::Int(4), ConfigValue::Int(8)]),
    );
    let filter = pid_filter(&config);
    assert!(pid_matches(&filter, 8));
    assert!(!pid_matches(&filter, 9));
    // No filter means everything passes.
    assert!(pid_matches(&None, 12345));
}

#[test]
fn a_list_without_numbers_is_no_filter() {
    let mut config = Configuration::new();
    config.set("pids", ConfigValue::List(vec![ConfigValue::Bool(true)]));
    assert_eq!(pids_filter(&config), None);
    config.set("pids", ConfigValue::List(vec![ConfigValue::Int(-1)]));
    assert_eq!(pids_filter(&config), Some(vec![u64::MAX]));
    assert_eq!(pid_filter(&config), None);
}

#[test]
fn plugins_stand_in_the_order_of_their_names() {
    let registry = PluginRegistry::new();
    let names: Vec<&str> = registry.all().iter().map(|entry| entry.plugin.name()).collect();
    let mut sorted = names.clone();
    sorted.sort();
    assert_eq!(names, sorted);
    assert_eq!(names.len(), registry.len());
    assert_eq!(names[0], "mac.bash.Bash");
    assert_eq!(names[names.len() - 1], "windows.pstree.PsTree");
}

#[test]
fn both_systems_are_registered() {
    let registry = PluginRegistry::default();
    let windows = registry
        .all()
        .iter()
        .filter(|entry| entry.plugin.operating_system() == OperatingSystem::Windows)
        .count();
    let mac = registry
        .all()
        .iter()
        .filter(|entry| entry.plugin.operating_system() == OperatingSystem::Mac)
        .count();
    assert_eq!((windows, mac), (39, 22));
    for entry in registry.all() {
        let system = entry.plugin.operating_system().as_str();
        assert!(entry.plugin.name().starts_with(system));
        assert!(!entry.plugin.columns().is_empty());
    }
}

#[test]
fn a_unique_suffix_finds_a_plugin_whatever_its_case() {
    let registry = PluginRegistry::new();
    assert_eq!(registry.get("psaux").unwrap().plugin.name(), "mac.psaux.Psaux");
    assert_eq!(
        registry.get("WINDOWS.PSLIST.PSLIST").unwrap().plugin.name(),
        "windows.pslist.PsList"
    );
    // Two systems have a plugin that ends so.
    assert!(registry.get("pslist").is_none());
    assert!(registry.get("no such plugin").is_none());
}

#[test]
fn the_first_plugin_of_a_name_is_found() {
    let mut registry: PluginRegistry<Alias<Lsof>> = PluginRegistry::empty();
    registry.add(Box::new(Alias::new(Lsof, "x.Twice").with_description("first")));
    registry.add(Box::new(Alias::new(Lsof, "x.Twice").with_description("second")));
    registry.add(Box::new(Alias::new(Lsof, "x.Once").with_description("third")));
    let said = |name: &str| registry.get(name).map(|entry| entry.plugin.description());
    assert_eq!(said("x.Twice"), Some("first"));
    assert_eq!(said("twice"), None);
    assert_eq!(said("ONCE"), Some("third"));
}

#[test]
fn a_name_is_answered_by_its_own_plugin() {
    let registry = PluginRegistry::new();
    let found = |name: &str| &registry.get(name).unwrap().plugin;
    let lsof = found("mac.lsof.Lsof");
    assert_eq!(lsof.description(), Lsof.description());
    assert_eq!(lsof.columns().len(), Lsof.columns().len());
    assert_eq!((lsof.epilog(), lsof.needs_kernel()), (None, false));
    let patches = found("windows.etwpatch.EtwPatch");
    assert_eq!(patches.description(), EtwPatch.description());
    assert_eq!(patches.epilog(), EtwPatch.epilog());
    assert!(patches.epilog().unwrap().starts_with("This plugin examines"));
}

#[test]
fn a_part_of_a_name_is_searched_for() {
    let registry = PluginRegistry::new();
    let found: Vec<&str> =
        registry.search("PSLIST").iter().map(|entry| entry.plugin.name()).collect();
    assert_eq!(found, vec!["mac.pslist.PsList", "windows.pslist.PsList"]);
    assert!(registry.search("no such plugin").is_empty());
    assert_eq!(registry.search("").len(), registry.len());
}

#[test]
fn sorting_keeps_plugins_of_the_same_name_as_they_are() {
    let mut registry: PluginRegistry<Alias<Lsof>> = PluginRegistry::empty();
    registry.add(Box::new(Alias::new(Lsof, "b").with_description("first")));
    registry.add(Box::new(Alias::new(Lsof, "a")));
    registry.add(Box::new(Alias::new(Lsof, "b").with_description("second")));
    registry.sort();
    let said: Vec<(&str, &str)> = registry
        .all()
        .iter()
        .map(|entry| (entry.plugin.name(), entry.plugin.description()))
        .collect();
    assert_eq!(
        said,
        vec![
            ("a", Lsof.description()),
            ("b", "first"),
            ("b", "second"),
        ]
    );
}

#[test]
fn an_alias_differs_in_its_name_alone() {
    let alias = Alias::new(EtwPatch, "windows.old.Name");
    assert_eq!(alias.name(), "windows.old.Name");
    assert_eq!(alias.description(), EtwPatch.description());
    assert_eq!(alias.epilog(), EtwPatch.epilog());
    assert_eq!(alias.operating_system(), OperatingSystem::Windows);
    assert_eq!(alias.columns().len(), EtwPatch.columns().len());
    assert_eq!(alias.requirements().len(), EtwPatch.requirements().len());
    assert!(!alias.needs_kernel());
    let said = Alias::new(EtwPatch, "n").with_description("d").with_epilog("e");
    assert_eq!((said.description(), said.epilog()), ("d", Some("e")));
}

#[test]
fn operating_systems_have_names() {
    assert_eq!(OperatingSystem::Windows.as_str(), "windows");
    assert_eq!(OperatingSystem::Linux.as_str(), "linux");
    assert_eq!(OperatingSystem::Mac.as_str(), "mac");
    assert_eq!(OperatingSystem::Any.as_str(), "any");
}
