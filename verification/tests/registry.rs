use plugin_demo::messages::{entry_symbol, init_failure, open_failure, symbol_failure};
use plugin_demo::{
    open_library, report_open, status_code, DemoPlug, LoadPass, Plugin, PluginManager, Table,
};
use std::sync::{Arc, Mutex};

/// A plugin that counts how often each hook ran and fails on request.
struct Probe {
    name: &'static str,
    id: u32,
    fail_load: bool,
    fail_unload: bool,
    loads: Arc<Mutex<u32>>,
    unloads: Arc<Mutex<u32>>,
}

impl Probe {
    fn named(name: &'static str, id: u32) -> Probe {
        Probe {
            name,
            id,
            fail_load: false,
            fail_unload: false,
            loads: Arc::new(Mutex::new(0)),
            unloads: Arc::new(Mutex::new(0)),
        }
    }
}

impl Plugin for Probe {
    fn name(&self) -> &'static str {
        self.name
    }

    fn on_plugin_load(&self) -> Result<(), String> {
        *self.loads.lock().unwrap() += 1;
        if self.fail_load {
            Err(String::from("no license"))
        } else {
            Ok(())
        }
    }

    fn on_plugin_unload(&self) -> Result<(), String> {
        *self.unloads.lock().unwrap() += 1;
        if self.fail_unload {
            Err(String::from("still busy"))
        } else {
            Ok(())
        }
    }
}

fn count(counter: &Arc<Mutex<u32>>) -> u32 {
    *counter.lock().unwrap()
}

/// A library that every process on this platform can open.
fn system_library() -> libloading::Library {
    open_library("libc.so.6").unwrap()
}

fn missing_library() -> libloading::Error {
    libloading::Library::new("/no/such/directory/garbage.txt").unwrap_err()
}

#[test]
fn new_manager_is_empty_and_keeps_its_directory() {
    let manager: PluginManager<Probe> = PluginManager::new("plugins/");
    assert_eq!(manager.plugin_directory(), "plugins/");
    assert!(!manager.has_plugin(String::from("alpha")));
    assert!(manager.get(String::from("alpha")).is_none());
}

#[test]
fn load_registers_under_the_reported_name() {
    let mut manager = PluginManager::new("plugins/");
    let probe = Probe::named("alpha", 1);
    let loads = probe.loads.clone();
    assert_eq!(manager.load_plugin(system_library(), Ok(probe)), Ok(()));
    assert_eq!(count(&loads), 1);
    assert!(manager.has_plugin(String::from("alpha")));
    assert!(!manager.has_plugin(String::from("beta")));
    let found = manager.get(String::from("alpha")).unwrap();
    assert_eq!(found.id, 1);
    assert_eq!(found.name(), "alpha");
}

#[test]
fn load_all_registers_one_entry_per_library() {
    let mut manager = PluginManager::new("plugins/");
    assert_eq!(manager.load_plugin(system_library(), Ok(Probe::named("alpha", 1))), Ok(()));
    assert_eq!(manager.load_plugin(system_library(), Ok(Probe::named("beta", 2))), Ok(()));
    assert_eq!(manager.load_plugin(system_library(), Ok(Probe::named("gamma", 3))), Ok(()));
    assert_eq!(manager.get(String::from("alpha")).unwrap().id, 1);
    assert_eq!(manager.get(String::from("beta")).unwrap().id, 2);
    assert_eq!(manager.get(String::from("gamma")).unwrap().id, 3);
    assert!(manager.get(String::from("delta")).is_none());
}

#[test]
fn get_shares_the_registered_instance() {
    let mut manager = PluginManager::new("plugins/");
    let plugin = Arc::new(Probe::named("alpha", 7));
    manager.register(system_library(), plugin.clone(), plugin.name());
    assert!(manager.has_plugin(String::from("alpha")));
    let found = manager.get(String::from("alpha")).unwrap();
    assert!(Arc::ptr_eq(&found, &plugin));
    let again = manager.get(String::from("alpha")).unwrap();
    assert!(Arc::ptr_eq(&again, &found));
    assert_eq!(Arc::strong_count(&plugin), 4);
}

#[test]
fn register_replaces_the_pair_of_the_same_name() {
    let mut manager = PluginManager::new("plugins/");
    let first = Arc::new(Probe::named("alpha", 1));
    let second = Arc::new(Probe::named("alpha", 2));
    manager.register(system_library(), first.clone(), first.name());
    assert_eq!(Arc::strong_count(&first), 2);
    manager.register(system_library(), second.clone(), second.name());
    assert_eq!(Arc::strong_count(&first), 1);
    assert!(Arc::ptr_eq(&manager.get(String::from("alpha")).unwrap(), &second));
    assert_eq!(count(&first.unloads), 0);
}

#[test]
fn failing_load_hook_is_reported_and_not_registered() {
    let mut manager = PluginManager::new("plugins/");
    let mut probe = Probe::named("alpha", 1);
    probe.fail_load = true;
    let loads = probe.loads.clone();
    let outcome = manager.load_plugin(system_library(), Ok(probe));
    assert_eq!(outcome, Err(String::from("plugin load error: no license")));
    assert_eq!(count(&loads), 1);
    assert!(!manager.has_plugin(String::from("alpha")));
    assert!(manager.get(String::from("alpha")).is_none());
}

#[test]
fn missing_entry_symbol_is_reported_with_the_loader_text() {
    let mut manager: PluginManager<Probe> = PluginManager::new("plugins/");
    let detail = missing_library().to_string();
    assert!(!detail.is_empty());
    let outcome = manager.load_plugin(system_library(), Err(missing_library()));
    assert_eq!(
        outcome,
        Err(format!("the '_plugin_create' symbol was not found: {}", detail))
    );
    assert!(!manager.has_plugin(String::from("alpha")));
}

#[test]
fn open_library_reports_a_file_that_is_no_library() {
    let detail = missing_library().to_string();
    let outcome = open_library("/no/such/directory/garbage.txt");
    assert_eq!(outcome.err(), Some(format!("unable to load plugin: {}", detail)));
}

#[test]
fn open_library_opens_a_real_library() {
    assert!(open_library("libc.so.6").is_ok());
}

#[test]
fn duplicate_name_replaces_without_unload_hook() {
    let mut manager = PluginManager::new("plugins/");
    let first = Probe::named("X", 1);
    let second = Probe::named("X", 2);
    let first_unloads = first.unloads.clone();
    let second_unloads = second.unloads.clone();
    assert_eq!(manager.load_plugin(system_library(), Ok(first)), Ok(()));
    assert_eq!(manager.load_plugin(system_library(), Ok(second)), Ok(()));
    assert_eq!(manager.get(String::from("X")).unwrap().id, 2);
    assert_eq!(manager.unload(), Ok(()));
    assert_eq!(count(&first_unloads), 0);
    assert_eq!(count(&second_unloads), 1);
    assert!(!manager.has_plugin(String::from("X")));
}

#[test]
fn unload_runs_each_hook_once_and_empties_the_registry() {
    let mut manager = PluginManager::new("plugins/");
    let alpha = Probe::named("alpha", 1);
    let beta = Probe::named("beta", 2);
    let alpha_unloads = alpha.unloads.clone();
    let beta_unloads = beta.unloads.clone();
    assert_eq!(manager.load_plugin(system_library(), Ok(alpha)), Ok(()));
    assert_eq!(manager.load_plugin(system_library(), Ok(beta)), Ok(()));
    assert_eq!(manager.unload(), Ok(()));
    assert_eq!(count(&alpha_unloads), 1);
    assert_eq!(count(&beta_unloads), 1);
    assert!(!manager.has_plugin(String::from("alpha")));
    assert!(!manager.has_plugin(String::from("beta")));
    assert!(manager.get(String::from("alpha")).is_none());
    assert_eq!(manager.unload(), Ok(()));
    assert_eq!(count(&alpha_unloads), 1);
    assert_eq!(count(&beta_unloads), 1);
}

#[test]
fn unload_of_an_empty_manager_succeeds() {
    let mut manager: PluginManager<Probe> = PluginManager::new("plugins/");
    assert_eq!(manager.unload(), Ok(()));
    assert_eq!(manager.plugin_directory(), "plugins/");
}

#[test]
fn failing_unload_hook_stops_the_teardown() {
    let mut manager = PluginManager::new("plugins/");
    let mut alpha = Probe::named("alpha", 1);
    alpha.fail_unload = true;
    assert_eq!(manager.load_plugin(system_library(), Ok(alpha)), Ok(()));
    assert_eq!(manager.unload(), Err(String::from("still busy")));
    assert!(manager.has_plugin(String::from("alpha")));
    assert_eq!(manager.get(String::from("alpha")).unwrap().id, 1);
}

#[test]
fn manager_can_be_loaded_again_after_unload() {
    let mut manager = PluginManager::new("plugins/");
    assert_eq!(manager.load_plugin(system_library(), Ok(Probe::named("alpha", 1))), Ok(()));
    assert_eq!(manager.load_plugin(system_library(), Ok(Probe::named("beta", 2))), Ok(()));
    assert_eq!(manager.unload(), Ok(()));
    assert_eq!(manager.load_plugin(system_library(), Ok(Probe::named("alpha", 1))), Ok(()));
    assert_eq!(manager.load_plugin(system_library(), Ok(Probe::named("beta", 2))), Ok(()));
    assert_eq!(manager.get(String::from("alpha")).unwrap().id, 1);
    assert_eq!(manager.get(String::from("beta")).unwrap().id, 2);
    assert_eq!(manager.plugin_directory(), "plugins/");
}

/// Walks `entries` as the host walks a directory: each entry says whether
/// it is a regular file and which plugin, if any, the file holds.
fn walk(manager: &mut PluginManager<Probe>, entries: Vec<(bool, Option<Probe>)>) -> (Result<(), String>, u32) {
    let mut pass = LoadPass::begin();
    let mut tried = 0;
    for (is_file, content) in entries {
        if pass.admits(is_file) {
            tried += 1;
            let outcome = match content {
                Some(probe) => manager.load_plugin(system_library(), Ok(probe)),
                None => open_library("/no/such/directory/garbage.txt").map(|_| ()),
            };
            pass.record(outcome);
        }
        if pass.halted() {
            break;
        }
    }
    (pass.finish(), tried)
}

#[test]
fn pass_with_good_library_before_garbage_keeps_the_good_one() {
    let mut manager = PluginManager::new("plugins/");
    let detail = missing_library().to_string();
    let (outcome, tried) = walk(
        &mut manager,
        vec![(true, Some(Probe::named("good", 1))), (true, None)],
    );
    assert_eq!(outcome, Err(format!("unable to load plugin: {}", detail)));
    assert_eq!(tried, 2);
    assert!(manager.has_plugin(String::from("good")));
    assert_eq!(status_code(&outcome), 1);
}

#[test]
fn pass_with_garbage_before_good_library_registers_nothing() {
    let mut manager = PluginManager::new("plugins/");
    let detail = missing_library().to_string();
    let (outcome, tried) = walk(
        &mut manager,
        vec![(true, None), (true, Some(Probe::named("good", 1)))],
    );
    assert_eq!(outcome, Err(format!("unable to load plugin: {}", detail)));
    assert_eq!(tried, 1);
    assert!(!manager.has_plugin(String::from("good")));
    assert_eq!(status_code(&outcome), 1);
}

#[test]
fn pass_skips_what_is_no_regular_file() {
    let mut manager = PluginManager::new("plugins/");
    let (outcome, tried) = walk(
        &mut manager,
        vec![
            (false, None),
            (true, Some(Probe::named("alpha", 1))),
            (false, Some(Probe::named("hidden", 9))),
            (true, Some(Probe::named("beta", 2))),
        ],
    );
    assert_eq!(outcome, Ok(()));
    assert_eq!(tried, 2);
    assert!(manager.has_plugin(String::from("alpha")));
    assert!(manager.has_plugin(String::from("beta")));
    assert!(!manager.has_plugin(String::from("hidden")));
    assert_eq!(status_code(&outcome), 0);
}

#[test]
fn pass_keeps_its_first_failure() {
    let mut pass = LoadPass::begin();
    assert!(!pass.halted());
    assert!(pass.admits(true));
    assert!(!pass.admits(false));
    pass.record(Ok(()));
    assert!(!pass.halted());
    pass.record(Err(String::from("first")));
    assert!(pass.halted());
    assert!(!pass.admits(true));
    pass.record(Err(String::from("second")));
    pass.record(Ok(()));
    assert_eq!(pass.finish(), Err(String::from("first")));
}

#[test]
fn pass_without_entries_succeeds() {
    assert_eq!(LoadPass::begin().finish(), Ok(()));
}

#[test]
fn status_code_is_zero_only_for_success() {
    assert_eq!(status_code(&Ok(())), 0);
    assert_eq!(status_code(&Err(String::from("unable to load plugin: x"))), 1);
    assert_eq!(status_code(&Err(String::new())), 1);
}

#[test]
fn failure_texts_name_their_stage() {
    assert_eq!(open_failure("bad format"), "unable to load plugin: bad format");
    assert_eq!(
        symbol_failure("undefined symbol"),
        "the '_plugin_create' symbol was not found: undefined symbol"
    );
    assert_eq!(init_failure("no license"), "plugin load error: no license");
    assert_eq!(open_failure(""), "unable to load plugin: ");
    assert_eq!(entry_symbol(), "_plugin_create");
}

#[test]
fn demo_plug_has_its_name_and_quiet_hooks() {
    let plug = DemoPlug::default();
    assert_eq!(plug.name(), "Demo Plug");
    assert_eq!(plug.on_plugin_load(), Ok(()));
    assert_eq!(plug.on_plugin_unload(), Ok(()));
}

#[test]
fn demo_plug_goes_through_the_manager() {
    let mut manager = PluginManager::new("plugins/");
    assert_eq!(manager.load_plugin(system_library(), Ok(DemoPlug::default())), Ok(()));
    assert!(manager.has_plugin(String::from("Demo Plug")));
    assert!(!manager.has_plugin(String::from("Demo")));
    assert_eq!(manager.get(String::from("Demo Plug")).unwrap().name(), "Demo Plug");
    assert_eq!(manager.unload(), Ok(()));
    assert!(!manager.has_plugin(String::from("Demo Plug")));
}

#[test]
fn table_insert_replaces_and_get_finds() {
    let mut table: Table<u32> = Table::new();
    assert_eq!(table.len(), 0);
    assert_eq!(table.get(&String::from("a")), None);
    table.insert(String::from("a"), 1);
    table.insert(String::from("b"), 2);
    assert_eq!(table.len(), 2);
    assert_eq!(table.get(&String::from("a")), Some(&1));
    assert_eq!(table.get(&String::from("b")), Some(&2));
    table.insert(String::from("a"), 3);
    assert_eq!(table.len(), 2);
    assert_eq!(table.get(&String::from("a")), Some(&3));
    assert_eq!(table.get(&String::from("b")), Some(&2));
    assert!(table.contains_key(&String::from("b")));
    assert!(!table.contains_key(&String::from("")));
    assert_eq!(*table.value_at(0), 3);
    assert_eq!(*table.value_at(1), 2);
    table.clear();
    assert_eq!(table.len(), 0);
    assert!(!table.contains_key(&String::from("a")));
}

#[test]
fn report_open_passes_a_library_on_and_words_a_failure() {
    let detail = missing_library().to_string();
    assert_eq!(
        report_open(Err(missing_library())).err(),
        Some(format!("unable to load plugin: {}", detail))
    );
    let library = libloading::Library::new("libc.so.6").unwrap();
    let mut manager = PluginManager::new("plugins/");
    let passed_on = report_open(Ok(library)).unwrap();
    assert_eq!(manager.load_plugin(passed_on, Ok(DemoPlug::default())), Ok(()));
    assert!(manager.has_plugin(String::from("Demo Plug")));
}
