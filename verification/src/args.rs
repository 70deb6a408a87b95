//! The command line as plain data, and the rules on which options may meet.

use crate::path::path_views;
use vstd::prelude::*;

verus! {

/// What the user asked for.
#[derive(Debug)]
pub struct Args {
    /// Files or directories to bury.
    pub targets: Vec<Vec<u8>>,
    /// Directory where buried files rest.
    pub graveyard: Option<Vec<u8>>,
    /// Whether the system's trash was asked for. The library does not act on it.
    pub trash: bool,
    /// Erase the whole graveyard.
    pub decompose: bool,
    /// List what was buried from the current directory.
    pub seance: bool,
    /// Restore the named graves, or the last one buried if none is named.
    pub unbury: Option<Vec<Vec<u8>>>,
    /// Show a summary of each target and ask before burying it.
    pub inspect: bool,
    /// Shell to generate completions for.
    pub completions: Option<String>,
}

/// What the user asked for, as a value of the model.
pub struct ArgsView {
    pub targets: Seq<Seq<u8>>,
    pub graveyard: Option<Seq<u8>>,
    pub trash: bool,
    pub decompose: bool,
    pub seance: bool,
    pub unbury: Option<Seq<Seq<u8>>>,
    pub inspect: bool,
    pub completions: Option<Seq<char>>,
}

/// The byte string that `path` holds, if there is one.
pub open spec fn optional_view(path: Option<Vec<u8>>) -> Option<Seq<u8>> {
    match path {
        Some(p) => Some(p@),
        None => None,
    }
}

impl View for Args {
    type V = ArgsView;

    open spec fn view(&self) -> ArgsView {
        ArgsView {
            targets: path_views(self.targets@),
            graveyard: optional_view(self.graveyard),
            trash: self.trash,
            decompose: self.decompose,
            seance: self.seance,
            unbury: match self.unbury {
                Some(graves) => Some(path_views(graves@)),
                None => None,
            },
            inspect: self.inspect,
            completions: match self.completions {
                Some(shell) => Some(shell@),
                None => None,
            },
        }
    }
}

impl Default for Args {
    fn default() -> (args: Args)
        ensures
            args@.targets.len() == 0,
            args@.graveyard is None,
            !args@.trash,
            !args@.decompose,
            !args@.seance,
            args@.unbury is None,
            !args@.inspect,
            args@.completions is None,
    {
        Args {
            targets: Vec::new(),
            graveyard: None,
            trash: false,
            decompose: false,
            seance: false,
            unbury: None,
            inspect: false,
            completions: None,
        }
    }
}

/// For each option that restricts the others: was it left at its default?
#[derive(Clone, Copy, Debug, PartialEq, Eq, Structural)]
pub struct IsDefault {
    pub graveyard: bool,
    pub decompose: bool,
    pub seance: bool,
    pub unbury: bool,
    pub inspect: bool,
    pub completions: bool,
}

impl IsDefault {
    /// Tells of each option of `cli` whether it was left at its default.
    pub fn new(cli: &Args) -> (defaults: IsDefault)
        ensures
            defaults.graveyard == (cli@.graveyard is None),
            defaults.decompose == !cli@.decompose,
            defaults.seance == !cli@.seance,
            defaults.unbury == (cli@.unbury is None),
            defaults.inspect == !cli@.inspect,
            defaults.completions == (cli@.completions is None),
    {
        IsDefault {
            graveyard: cli.graveyard.is_none(),
            decompose: !cli.decompose,
            seance: !cli.seance,
            unbury: cli.unbury.is_none(),
            inspect: !cli.inspect,
            completions: cli.completions.is_none(),
        }
    }
}

/// Why a combination of options is refused.
#[derive(Clone, Copy, Debug, PartialEq, Eq, Structural)]
pub enum ArgsError {
    /// `--completions` was given together with another mode or `--graveyard`.
    CompletionsNotAlone,
    /// `--decompose` was given together with `--seance`, `--unbury` or `--inspect`.
    DecomposeNotAlone,
}

/// `--completions` stands alone.
pub open spec fn completions_misused(cli: ArgsView) -> bool {
    cli.completions is Some && (cli.graveyard is Some || cli.decompose || cli.seance
        || cli.unbury is Some || cli.inspect)
}

/// `--decompose` goes with `--graveyard` only.
pub open spec fn decompose_misused(cli: ArgsView) -> bool {
    cli.decompose && (cli.seance || cli.unbury is Some || cli.inspect)
}

/// What the check of the options gives: the first of the two rules that is broken
/// names the error.
pub open spec fn validated(cli: ArgsView) -> Result<(), ArgsError> {
    if completions_misused(cli) {
        Err(ArgsError::CompletionsNotAlone)
    } else if decompose_misused(cli) {
        Err(ArgsError::DecomposeNotAlone)
    } else {
        Ok(())
    }
}

/// Accepts the options unless `--completions` or `--decompose` is combined with
/// something it excludes; the first of the two rules that is broken names the error.
pub fn validate_args(cli: &Args) -> (result: Result<(), ArgsError>)
    ensures
        result == validated(cli@),
        result is Ok <==> !completions_misused(cli@) && !decompose_misused(cli@),
{
    let defaults = IsDefault::new(cli);
    if !defaults.completions && !(defaults.graveyard && defaults.decompose && defaults.seance
        && defaults.unbury && defaults.inspect) {
        return Err(ArgsError::CompletionsNotAlone);
    }
    if !defaults.decompose && !(defaults.seance && defaults.unbury && defaults.inspect) {
        return Err(ArgsError::DecomposeNotAlone);
    }
    Ok(())
}

} // verus!
