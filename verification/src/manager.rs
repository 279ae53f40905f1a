//! The plugin manager: the registry of loaded instances, the registry of
//! the libraries that own them, and the steps that fill and empty both.

use crate::library::{describe, error_text, open, share};
use crate::messages::{
    init_failure, init_failure_text, open_failure, open_failure_text, symbol_failure,
    symbol_failure_text,
};
use crate::plugin::Plugin;
use crate::table::Table;
use libloading::{Error, Library};
use std::sync::Arc;
use vstd::prelude::*;

verus! {

/// Owns the plugins of one directory: every registered instance under its
/// own name, and under the same name the library the instance came from.
pub struct PluginManager<P: Plugin> {
    plugin_directory: String,
    plugins: Table<Arc<P>>,
    libraries: Table<Library>,
}

/// Opens the file at `path` as a dynamic library. A failure is reported as
/// an open failure that carries the loader's own text.
pub fn open_library(path: &str) -> (opened: Result<Library, String>)
    ensures
        opened matches Err(message) ==> exists|error: Error|
            message@ == open_failure_text(#[trigger] error_text(error)),
{
    report_open(open(path))
}

/// `reported` is what the host makes of `outcome`, the loader's answer to
/// opening a file: an opened library is passed on as it is, and a failure
/// becomes an open failure that carries the loader's own text.
pub open spec fn open_report(
    outcome: Result<Library, Error>,
    reported: Result<Library, String>,
) -> bool {
    match outcome {
        Ok(library) => reported == Ok::<Library, String>(library),
        Err(error) => reported matches Err(message) && message@ == open_failure_text(
            error_text(error),
        ),
    }
}

/// Turns the loader's answer to opening a file into the host's own.
pub fn report_open(outcome: Result<Library, Error>) -> (reported: Result<Library, String>)
    ensures
        open_report(outcome, reported),
{
    match outcome {
        Ok(library) => Ok(library),
        Err(error) => {
            let detail = describe(&error);
            Err(open_failure(detail.as_str()))
        },
    }
}

/// `name` is a name that `plugin` reports of itself.
pub open spec fn reports<P: Plugin>(plugin: Arc<P>, name: Seq<char>) -> bool {
    exists|reported: &'static str| #[trigger]
        P::name.ensures((&*plugin,), reported) && reported@ == name
}

impl<P: Plugin> PluginManager<P> {
    /// The directory that this manager loads from.
    pub closed spec fn directory(&self) -> Seq<char> {
        self.plugin_directory@
    }

    /// The registered instances by name.
    pub closed spec fn plugins(&self) -> Map<Seq<char>, Arc<P>> {
        self.plugins@
    }

    /// The owning libraries by name.
    pub closed spec fn libraries(&self) -> Map<Seq<char>, Library> {
        self.libraries@
    }

    /// Both registries are sound and hold the same names, and every instance
    /// is filed under the name that it reports.
    pub closed spec fn wf(&self) -> bool {
        &&& self.plugins.wf()
        &&& self.libraries.wf()
        &&& self.plugins@.dom() == self.libraries@.dom()
        &&& forall|name: Seq<char>| #[trigger]
            self.plugins@.dom().contains(name) ==> reports(self.plugins@[name], name)
    }

    /// Nothing is registered.
    pub open spec fn is_empty(&self) -> bool {
        &&& self.plugins() == Map::<Seq<char>, Arc<P>>::empty()
        &&& self.libraries() == Map::<Seq<char>, Library>::empty()
    }

    /// `self` holds what `before` held, for the same directory.
    pub open spec fn unchanged_from(&self, before: &Self) -> bool {
        &&& self.directory() == before.directory()
        &&& self.plugins() == before.plugins()
        &&& self.libraries() == before.libraries()
    }

    /// `self` is `before` with `plugin` and `library` filed under `name`, in
    /// place of whatever was filed there.
    pub open spec fn registered_from(
        &self,
        before: &Self,
        name: Seq<char>,
        plugin: Arc<P>,
        library: Library,
    ) -> bool {
        &&& self.directory() == before.directory()
        &&& self.plugins() == before.plugins().insert(name, plugin)
        &&& self.libraries() == before.libraries().insert(name, library)
    }

    /// A manager for the plugins in `path`, with nothing loaded. The
    /// directory is not touched.
    pub fn new(path: &str) -> (manager: Self)
        ensures
            manager.wf(),
            manager.directory() == path@,
            manager.is_empty(),
    {
        PluginManager {
            plugin_directory: String::from_str(path),
            plugins: Table::new(),
            libraries: Table::new(),
        }
    }

    /// The directory that this manager loads from.
    pub fn plugin_directory(&self) -> (path: &str)
        ensures
            path@ == self.directory(),
    {
        self.plugin_directory.as_str()
    }

    /// The instance registered under `name`, shared with the caller.
    pub fn get(&self, name: String) -> (found: Option<Arc<P>>)
        requires
            self.wf(),
        ensures
            found == (if self.plugins().dom().contains(name@) {
                Some(self.plugins()[name@])
            } else {
                None::<Arc<P>>
            }),
    {
        match self.plugins.get(&name) {
            Some(plugin) => Some(share(plugin)),
            None => None,
        }
    }

    /// Whether an instance is registered under `name`.
    pub fn has_plugin(&self, name: String) -> (present: bool)
        requires
            self.wf(),
        ensures
            present == self.plugins().dom().contains(name@),
    {
        self.plugins.contains_key(&name)
    }

    /// Files `plugin` and the library it came from under `name`, the name
    /// that the instance reported. An earlier pair of that name is replaced
    /// and let go without its unload hook; every other entry stays.
    pub fn register(&mut self, library: Library, plugin: Arc<P>, name: &'static str)
        requires
            old(self).wf(),
            P::name.ensures((&*plugin,), name),
        ensures
            final(self).wf(),
            final(self).registered_from(old(self), name@, plugin, library),
    {
        assert(reports(plugin, name@));
        self.plugins.insert(String::from_str(name), plugin);
        self.libraries.insert(String::from_str(name), library);
        assert(self.plugins@.dom() =~= self.libraries@.dom());
    }

    /// Loads one candidate. `library` is the opened file and `created` is
    /// what resolving and calling the entry symbol in it gave. A missing
    /// symbol is reported and changes nothing. Otherwise the instance's load
    /// hook runs. If the hook succeeds, the instance and the library are
    /// registered under the name that the instance reports. If it fails,
    /// that is reported, nothing changes, and the instance is let go before
    /// its library.
    pub fn load_plugin(&mut self, library: Library, created: Result<P, Error>) -> (outcome: Result<
        (),
        String,
    >)
        requires
            old(self).wf(),
        ensures
            final(self).wf(),
            match created {
                Err(error) => {
                    &&& final(self).unchanged_from(old(self))
                    &&& outcome matches Err(message) && message@ == symbol_failure_text(
                        error_text(error),
                    )
                },
                Ok(instance) => match outcome {
                    Ok(_) => {
                        &&& P::on_plugin_load.ensures((&instance,), Ok(()))
                        &&& exists|name: &'static str| #[trigger]
                            P::name.ensures((&instance,), name) && final(self).registered_from(
                                old(self),
                                name@,
                                Arc::new(instance),
                                library,
                            )
                    },
                    Err(message) => {
                        &&& final(self).unchanged_from(old(self))
                        &&& exists|reason: String| #[trigger]
                            P::on_plugin_load.ensures((&instance,), Err(reason)) && message@
                                == init_failure_text(reason@)
                    },
                },
            },
    {
        match created {
            Err(error) => {
                let detail = describe(&error);
                Err(symbol_failure(detail.as_str()))
            },
            Ok(instance) => {
                let plugin = Arc::new(instance);
                let loaded = plugin.on_plugin_load();
                match loaded {
                    Ok(_unit) => {
                        assert(loaded == Ok::<(), String>(()));
                        let name = plugin.name();
                        self.register(library, plugin, name);
                        Ok(())
                    },
                    Err(reason) => Err(init_failure(reason.as_str())),
                }
            },
        }
    }

    /// Every registered instance's unload hook can report success.
    pub open spec fn hooks_succeeded(&self) -> bool {
        forall|name: Seq<char>| #[trigger]
            self.plugins().dom().contains(name) ==> P::on_plugin_unload.ensures(
                (&*self.plugins()[name],),
                Ok(()),
            )
    }

    /// Some registered instance's unload hook can fail with `reason`.
    pub open spec fn hook_failed(&self, reason: String) -> bool {
        exists|name: Seq<char>| #[trigger]
            self.plugins().dom().contains(name) && P::on_plugin_unload.ensures(
                (&*self.plugins()[name],),
                Err(reason),
            )
    }

    /// Runs the unload hook of every registered instance, each once, and
    /// stops at the first one that fails, with its reason.
    fn run_unload_hooks(&self) -> (hooks: Result<(), String>)
        requires
            self.wf(),
        ensures
            match hooks {
                Ok(_) => self.hooks_succeeded(),
                Err(reason) => self.hook_failed(reason),
            },
    {
        proof {
            self.plugins.lemma_names();
        }
        let count = self.plugins.len();
        let mut i: usize = 0;
        while i < count
            invariant
                self.wf(),
                count == self.plugins.names().len(),
                i <= count,
                forall|j: int|
                    0 <= j < count ==> self.plugins@.dom().contains(
                        #[trigger] self.plugins.names()[j],
                    ),
                forall|j: int|
                    0 <= j < i ==> P::on_plugin_unload.ensures(
                        (&*self.plugins@[#[trigger] self.plugins.names()[j]],),
                        Ok(()),
                    ),
            decreases count - i,
        {
            let plugin = self.plugins.value_at(i);
            let hooked = plugin.on_plugin_unload();
            match hooked {
                Ok(_unit) => {
                    assert(hooked == Ok::<(), String>(()));
                },
                Err(reason) => {
                    assert(self.plugins().dom().contains(self.plugins.names()[i as int]));
                    return Err(reason);
                },
            }
            i += 1;
        }
        proof {
            self.plugins.lemma_names();
            assert forall|name: Seq<char>| #[trigger]
                self.plugins().dom().contains(name) implies P::on_plugin_unload.ensures(
                (&*self.plugins()[name],),
                Ok(()),
            ) by {
                assert(self.plugins.names().contains(name));
                let j = choose|j: int|
                    0 <= j < self.plugins.names().len() && self.plugins.names()[j] == name;
                assert(self.plugins.names()[j] == name);
            }
        }
        Ok(())
    }

    /// Ends a teardown whose hooks have run: `hooks` is their verdict. After
    /// a success every instance is let go, then every library is released.
    /// After a failure everything stays as it is.
    fn finish_unload(&mut self, hooks: Result<(), String>) -> (outcome: Result<(), String>)
        requires
            old(self).wf(),
        ensures
            final(self).wf(),
            final(self).directory() == old(self).directory(),
            outcome == hooks,
            match hooks {
                Ok(_) => final(self).is_empty(),
                Err(_) => final(self).unchanged_from(old(self)),
            },
    {
        if hooks.is_ok() {
            self.plugins.clear();
            self.libraries.clear();
        }
        hooks
    }

    /// Tears everything down: runs every instance's unload hook, then lets
    /// the instances go and releases the libraries, and leaves both
    /// registries empty. A hook that fails stops the teardown with its
    /// reason: nothing is released and everything stays registered, the
    /// instances whose hooks have already run among them.
    pub fn unload(&mut self) -> (outcome: Result<(), String>)
        requires
            old(self).wf(),
        ensures
            final(self).wf(),
            final(self).directory() == old(self).directory(),
            match outcome {
                Ok(_) => old(self).hooks_succeeded() && final(self).is_empty(),
                Err(reason) => old(self).hook_failed(reason) && final(self).unchanged_from(
                    old(self),
                ),
            },
    {
        let hooks = self.run_unload_hooks();
        self.finish_unload(hooks)
    }
}

/// One successful load: the name that the instance reported, the instance,
/// and the library that it came from.
pub struct Loaded<P> {
    pub name: Seq<char>,
    pub plugin: Arc<P>,
    pub library: Library,
}

/// `states` is what a manager went through while `loads` were registered
/// one after the other: each state is the one before it with one more load.
pub open spec fn registered_in_turn<P: Plugin>(
    states: Seq<PluginManager<P>>,
    loads: Seq<Loaded<P>>,
) -> bool {
    &&& states.len() == loads.len() + 1
    &&& forall|i: int|
        0 <= i < loads.len() ==> (#[trigger] states[i + 1]).registered_from(
            &states[i],
            loads[i].name,
            loads[i].plugin,
            loads[i].library,
        )
}

/// No two of `loads` report the same name.
pub open spec fn distinct_names<P>(loads: Seq<Loaded<P>>) -> bool {
    forall|i: int, j: int| 0 <= i < j < loads.len() ==> loads[i].name != loads[j].name
}

/// In a sound manager a name is a key of one registry exactly when it is a
/// key of the other, and every instance stands under a name that it reports.
pub proof fn lemma_registries_agree<P: Plugin>(manager: &PluginManager<P>, name: Seq<char>)
    requires
        manager.wf(),
    ensures
        manager.plugins().dom().contains(name) <==> manager.libraries().dom().contains(name),
        manager.plugins().dom().contains(name) ==> reports(manager.plugins()[name], name),
{
}

/// After a registration under `name`, that name leads to the instance that
/// was just registered, whatever stood there before, and every other name
/// leads to what it led to before.
pub proof fn lemma_latest_registration_wins<P: Plugin>(
    before: &PluginManager<P>,
    after: &PluginManager<P>,
    name: Seq<char>,
    plugin: Arc<P>,
    library: Library,
    other: Seq<char>,
)
    requires
        after.registered_from(before, name, plugin, library),
        other != name,
    ensures
        after.plugins().dom().contains(name),
        after.plugins()[name] == plugin,
        after.libraries()[name] == library,
        after.plugins().dom().contains(other) == before.plugins().dom().contains(other),
        before.plugins().dom().contains(other) ==> after.plugins()[other] == before.plugins()[other],
        before.libraries().dom().contains(other) ==> after.libraries()[other]
            == before.libraries()[other],
{
}

/// A manager in which nothing is registered, be it new or unloaded, finds
/// no instance under any name.
pub proof fn lemma_empty_finds_nothing<P: Plugin>(manager: &PluginManager<P>, name: Seq<char>)
    requires
        manager.is_empty(),
    ensures
        !manager.plugins().dom().contains(name),
        !manager.libraries().dom().contains(name),
{
}

/// A manager that has been unloaded behaves as a new one: when the same
/// loads are registered in the same order, once into a new manager and
/// once into an unloaded manager for the same directory, both go through
/// the same registries.
pub proof fn lemma_reload_repeats<P: Plugin>(
    first: Seq<PluginManager<P>>,
    second: Seq<PluginManager<P>>,
    loads: Seq<Loaded<P>>,
    count: int,
)
    requires
        registered_in_turn(first, loads),
        registered_in_turn(second, loads),
        first[0].is_empty(),
        second[0].is_empty(),
        first[0].directory() == second[0].directory(),
        0 <= count <= loads.len(),
    ensures
        second[count].unchanged_from(&first[count]),
    decreases count,
{
    if count > 0 {
        let k = count - 1;
        lemma_reload_repeats(first, second, loads, k);
        assert(first[k + 1].registered_from(
            &first[k],
            loads[k].name,
            loads[k].plugin,
            loads[k].library,
        ));
        assert(second[k + 1].registered_from(
            &second[k],
            loads[k].name,
            loads[k].plugin,
            loads[k].library,
        ));
    }
}

/// When libraries that report different names are loaded into an empty
/// manager one after the other, the manager ends with exactly one entry for
/// each of them, under its name, in both registries, and with nothing else.
pub proof fn lemma_one_entry_per_library<P: Plugin>(
    states: Seq<PluginManager<P>>,
    loads: Seq<Loaded<P>>,
    count: int,
)
    requires
        registered_in_turn(states, loads),
        distinct_names(loads),
        states[0].is_empty(),
        0 <= count <= loads.len(),
    ensures
        forall|name: Seq<char>|
            states[count].plugins().dom().contains(name) <==> exists|i: int|
                0 <= i < count && #[trigger] loads[i].name == name,
        states[count].libraries().dom() == states[count].plugins().dom(),
        states[count].plugins().dom().finite(),
        states[count].plugins().dom().len() == count,
        forall|i: int|
            0 <= i < count ==> states[count].plugins()[#[trigger] loads[i].name]
                == loads[i].plugin,
        forall|i: int|
            0 <= i < count ==> states[count].libraries()[#[trigger] loads[i].name]
                == loads[i].library,
    decreases count,
{
    if count > 0 {
        lemma_one_entry_per_library(states, loads, count - 1);
        let k = count - 1;
        let before = states[k];
        let after = states[k + 1];
        let last = loads[k];
        assert(after.registered_from(&before, last.name, last.plugin, last.library));
        assert(!before.plugins().dom().contains(last.name));
        assert forall|name: Seq<char>| after.plugins().dom().contains(name) implies exists|i: int|
            0 <= i < count && #[trigger] loads[i].name == name by {
            if name == last.name {
                assert(loads[count - 1].name == name);
            } else {
                let i = choose|i: int| 0 <= i < count - 1 && #[trigger] loads[i].name == name;
                assert(loads[i].name == name);
            }
        }
        assert(after.libraries().dom() =~= after.plugins().dom());
    } else {
        assert(states[0].plugins().dom() =~= Set::<Seq<char>>::empty());
    }
}

} // verus!
