//! The command line: what it holds, and the combinations it refuses.
use vstd::prelude::*;

verus! {

/// The options of a run.
#[derive(Debug, Clone)]
pub struct Cli {
    /// Nix files, or directories holding `.nix` files.
    pub files_or_directories: Vec<String>,
    /// Check without making changes (the default).
    pub check: bool,
    /// Perform the updates.
    pub update: bool,
    /// Confirm each update.
    pub interactive: bool,
    /// Say more.
    pub verbose: bool,
    /// How many files are checked at once.
    pub jobs: usize,
    /// The rules enabled.
    pub rules: Vec<String>,
}

/// Why a command line is refused, if it is: no file given, or checking and
/// updating asked for together.
pub open spec fn spec_cli_error(no_files: bool, check: bool, update: bool) -> Option<Seq<char>> {
    if no_files {
        Some("No files specified. Use --help for usage information."@)
    } else if check && update {
        Some("--check and --update are mutually exclusive."@)
    } else {
        None
    }
}

impl Cli {
    /// Refuses a command line without files, or with both `--check` and
    /// `--update` (see [`spec_cli_error`]).
    pub fn validate(&self) -> (r: Result<(), String>)
        ensures
            match r {
                Ok(_) => spec_cli_error(self.files_or_directories@.len() == 0, self.check, self.update) is None,
                Err(e) => spec_cli_error(self.files_or_directories@.len() == 0, self.check, self.update) == Some(e@),
            },
    {
        if self.files_or_directories.len() == 0 {
            return Err(String::from_str("No files specified. Use --help for usage information."));
        }
        if self.check && self.update {
            return Err(String::from_str("--check and --update are mutually exclusive."));
        }
        Ok(())
    }

    /// Whether updates are confirmed one group at a time: `--update` with
    /// `--interactive`.
    pub fn prompts(&self) -> (b: bool)
        ensures
            b == (self.update && self.interactive),
    {
        self.update && self.interactive
    }
}

} // verus!
