//! Resolve compiler and linker flags for a named system library by
//! interpreting the output of an external package-configuration tool.
//!
//! The crate is the flag-resolution engine alone: deciding whether a library
//! should be linked statically or dynamically, composing the query command
//! lines, splitting the tool's raw output into flag words, and classifying
//! each word into a structured [`Library`] descriptor.  Everything the engine
//! learns from the outside world is handed to it as a plain value: the
//! process environment as an [`Env`] snapshot, the file system as an [`Fs`]
//! model, and the two external tool invocations as a transcript of
//! [`RunOutcome`] values.  A thin host layer owns the actual environment
//! reads, process spawns and file-existence checks.

pub mod command;
pub mod config;
pub mod env;
pub mod error;
pub mod fs;
pub mod library;
pub mod probe;
pub mod strutil;
pub mod tokenizer;

pub use command::CommandSpec;
pub use config::Config;
pub use env::Env;
pub use error::Error;
pub use error::ProcOutput;
pub use error::RunOutcome;
pub use fs::is_static_available;
pub use fs::Fs;
pub use library::Library;
pub use probe::find_library;
pub use probe::get_variable;
pub use probe::probe_library;
pub use probe::target_supported;
pub use strutil::envify;
pub use tokenizer::split_flags;

use vstd::prelude::*;

verus! {

/// The tri-state linking policy for one library.
#[derive(Clone, Copy, PartialEq, Eq, Structural, Debug)]
pub enum Statik {
    /// Link dynamically.
    No,
    /// Request static linking, but only when a static archive can be found
    /// outside the known system directories.
    Yes,
    /// Always request static linking.
    Force,
}

impl Statik {
    /// The named conversion from a plain boolean: `true` asks for static
    /// linking when available, `false` for dynamic linking.
    pub fn from_bool(o: bool) -> (r: Statik)
        ensures
            r == (if o { Statik::Yes } else { Statik::No }),
    {
        if o {
            Statik::Yes
        } else {
            Statik::No
        }
    }
}

} // verus!
