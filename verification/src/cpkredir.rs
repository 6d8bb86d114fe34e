//! The loader configuration `cpkredir.ini` that the console build makes sure
//! exists at start-up: its default text, what to do about it, and the line
//! that reports the outcome.
use vstd::prelude::*;

use crate::about::{debug_str, str_debug};
use crate::text::{append_str, concat, copy_str};

verus! {

/// What start-up does about `cpkredir.ini`.
#[derive(Clone, Copy, PartialEq, Eq, Structural)]
pub enum CpkAction {
    /// The file exists: leave it as it is.
    Keep,
    /// The file is missing: write the default text, creating its folder first
    /// when that is missing too.
    Write { create_parent: bool },
}

/// The default text of `cpkredir.ini`.
pub open spec fn cpkredir_default_text() -> Seq<char> {
    "[CPKREDIR]\nEnabled=1\nPlaceTocAtEnd=1\nHandleCpksWithoutExtFiles=0\nLogFile=\"cpkredir.log\"\nReadBlockSizeKB=4096\nModsDbIni=\"E:\\Unleashed\\mods\\ModsDB.ini\"\nEnableSaveFileRedirection=0\nSaveFileFallback=\"\"\nSaveFileOverride=\"\"\nLogType=\"\"\n\n[HedgeModManager]\nEnableFallbackSaveRedirection=0\nModProfile=\"Default\"\nUseLauncher=1\n"@
}

/// The default text of `cpkredir.ini`.
pub fn cpkredir_default() -> (s: String)
    ensures
        s@ == cpkredir_default_text(),
{
    copy_str(
        "[CPKREDIR]\nEnabled=1\nPlaceTocAtEnd=1\nHandleCpksWithoutExtFiles=0\nLogFile=\"cpkredir.log\"\nReadBlockSizeKB=4096\nModsDbIni=\"E:\\Unleashed\\mods\\ModsDB.ini\"\nEnableSaveFileRedirection=0\nSaveFileFallback=\"\"\nSaveFileOverride=\"\"\nLogType=\"\"\n\n[HedgeModManager]\nEnableFallbackSaveRedirection=0\nModProfile=\"Default\"\nUseLauncher=1\n",
    )
}

/// What to do, given whether the file and its folder exist: an existing file is
/// kept; a missing one is written, with its folder created when that is missing.
pub fn cpkredir_action(ini_exists: bool, parent_exists: bool) -> (a: CpkAction)
    ensures
        ini_exists ==> a == CpkAction::Keep,
        !ini_exists ==> a == (CpkAction::Write { create_parent: !parent_exists }),
{
    if ini_exists {
        CpkAction::Keep
    } else {
        CpkAction::Write { create_parent: !parent_exists }
    }
}

/// The report after writing the file at `path`: whether it is an error, and its
/// line.
pub fn cpkredir_report(path: &str, outcome: Result<(), String>) -> (r: (bool, String))
    ensures
        r.0 == outcome is Err,
        outcome is Ok ==> r.1@ == "Created default cpkredir.ini at "@ + path@,
        outcome matches Err(e) ==> r.1@ == "Failed to create cpkredir.ini: "@ + e@,
{
    match outcome {
        Ok(()) => (false, concat("Created default cpkredir.ini at ", path)),
        Err(e) => (true, concat("Failed to create cpkredir.ini: ", e.as_str())),
    }
}

/// The error line when the folder `parent` could not be created; the folder is
/// written as `{:?}` writes it.
pub fn cpkredir_folder_error(parent: &str, error: &str) -> (r: String)
    ensures
        r@ == "Failed to create directory "@ + str_debug(parent@) + ": "@ + error@,
{
    let shown = debug_str(parent);
    let mut r = concat("Failed to create directory ", shown.as_str());
    append_str(&mut r, ": ");
    append_str(&mut r, error);
    r
}

} // verus!
