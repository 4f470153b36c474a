//! The command line: the subcommands and their arguments.
use vstd::prelude::*;
use vstd::string::*;

verus! {

/// The parsed command line.
#[derive(Debug)]
pub struct Cli {
    pub command: Option<Commands>,
}

/// The subcommands.
#[derive(Debug)]
pub enum Commands {
    /// Create a new VM.
    Create { name: String, iso: String, virtio_iso: Option<String> },
    /// Boot a VM, optionally without the ISO or the SPICE viewer.
    Launch { name: String, no_iso: bool, headless: bool },
    /// Launch an application through FreeRDP RemoteApp.
    App { name: String, app_path: String, args: Vec<String> },
    /// Gracefully stop a VM.
    Stop { name: String },
    /// Show the VMs and their status.
    List,
    /// Stop and delete a VM.
    Disable { name: String },
    /// Print the version.
    Version,
}

/// Whether the program's arguments ask for the built-in help page: the first argument
/// after the program name is `help`.
pub fn wants_custom_help(args: &Vec<String>) -> (r: bool)
    ensures
        r == (args@.len() > 1 && args@[1]@ == "help"@),
{
    if args.len() > 1 {
        let help = String::from_str("help");
        args[1] == help
    } else {
        false
    }
}

/// The line that `version` prints.
pub fn version_line() -> (r: String)
    ensures
        r@ == "qvm 1.2.0"@,
{
    String::from_str("qvm 1.2.0")
}

} // verus!
