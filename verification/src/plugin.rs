//! The capability that every loadable module provides.

use vstd::prelude::*;

verus! {

/// What a plugin offers to its host: a fixed name and two lifecycle hooks.
pub trait Plugin: Send + Sync {
    /// The name of this instance. It never changes while the instance lives,
    /// and it is the only key the host files the instance under.
    fn name(&self) -> &'static str;

    /// Runs once, after construction and before the instance can be looked
    /// up. An `Err` carries the reason why the plugin cannot be used.
    fn on_plugin_load(&self) -> Result<(), String>;

    /// Runs once, during teardown, while the owning library is still mapped.
    /// An `Err` carries the reason why the plugin could not shut down.
    fn on_plugin_unload(&self) -> Result<(), String>;
}

/// The smallest possible plugin: it has a name and both hooks succeed.
#[derive(Debug)]
pub struct DemoPlug;

impl Default for DemoPlug {
    fn default() -> (plug: Self)
        ensures
            plug == DemoPlug,
    {
        DemoPlug
    }
}

impl Plugin for DemoPlug {
    fn name(&self) -> (name: &'static str)
        ensures
            name@ == "Demo Plug"@,
    {
        "Demo Plug"
    }

    fn on_plugin_load(&self) -> (outcome: Result<(), String>)
        ensures
            outcome is Ok,
    {
        Ok(())
    }

    fn on_plugin_unload(&self) -> (outcome: Result<(), String>)
        ensures
            outcome is Ok,
    {
        Ok(())
    }
}

} // verus!
