//! A host for native plugins: a registry of plugin instances and of the
//! dynamic libraries that own them, with the rules for loading a directory
//! of candidates and for tearing everything down again.
//!
//! A host walks its plugin directory with a [`LoadPass`]. For every entry
//! that the pass admits it opens the file with [`open_library`], resolves
//! and calls the entry symbol, and hands the library and the new instance to
//! [`PluginManager::load_plugin`], which runs the load hook and registers
//! both under the instance's name. [`PluginManager::unload`] runs the unload
//! hooks, lets the instances go and only then releases the libraries.

pub mod library;
pub mod manager;
pub mod messages;
pub mod plugin;
pub mod scan;
pub mod table;

pub use manager::{open_library, report_open, PluginManager};
pub use plugin::{DemoPlug, Plugin};
pub use scan::{status_code, LoadPass};
pub use table::Table;
