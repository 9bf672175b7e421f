//! The intrusion-detection log's settings: where its lines go and which
//! path form each line carries.  File handles and the actual writes stay
//! with the embedding process.

use vstd::prelude::*;

use crate::errors::LoggerError;
use crate::text::str_eq;

verus! {

/// Where intrusion-detection log lines are written.
#[derive(Debug, Clone, Copy, PartialEq, Eq, Structural)]
pub enum OutputMode {
    All,
    FileOnly,
    ConsoleOnly,
    Disabled,
}

impl OutputMode {
    /// The mode a configuration string names; anything unknown falls
    /// back to writing everywhere.
    pub fn from_name(name: &str) -> (r: OutputMode)
        ensures
            name@ == "all"@ ==> r == OutputMode::All,
            name@ == "file"@ ==> r == OutputMode::FileOnly,
            name@ == "console"@ ==> r == OutputMode::ConsoleOnly,
            name@ == "none"@ ==> r == OutputMode::Disabled,
            (name@ != "all"@ && name@ != "file"@ && name@ != "console"@ && name@ != "none"@)
                ==> r == OutputMode::All,
    {
        proof {
            reveal_strlit("all");
            reveal_strlit("file");
            reveal_strlit("console");
            reveal_strlit("none");
            assert("all"@.len() == 3);
            assert("file"@.len() == 4);
            assert("console"@.len() == 7);
            assert("none"@.len() == 4);
            assert("file"@[0] == 'f');
            assert("none"@[0] == 'n');
        }
        if str_eq(name, "all") {
            OutputMode::All
        } else if str_eq(name, "file") {
            OutputMode::FileOnly
        } else if str_eq(name, "console") {
            OutputMode::ConsoleOnly
        } else if str_eq(name, "none") {
            OutputMode::Disabled
        } else {
            OutputMode::All
        }
    }

    /// Whether lines go to the log file under this mode.
    pub fn writes_file(&self) -> (r: bool)
        ensures
            r == (*self == OutputMode::All || *self == OutputMode::FileOnly),
    {
        match self {
            OutputMode::All | OutputMode::FileOnly => true,
            _ => false,
        }
    }

    /// Whether lines go to the console under this mode.
    pub fn writes_console(&self) -> (r: bool)
        ensures
            r == (*self == OutputMode::All || *self == OutputMode::ConsoleOnly),
    {
        match self {
            OutputMode::All | OutputMode::ConsoleOnly => true,
            _ => false,
        }
    }
}

/// The settings of the intrusion-detection log sink.
#[derive(Debug)]
pub struct LogSettings {
    pub mode: OutputMode,
    pub file_path: Option<String>,
    pub path_style: Option<String>,
}

impl LogSettings {
    pub fn new() -> (r: LogSettings)
        ensures
            r.mode == OutputMode::All,
            r.file_path is None,
            r.path_style is None,
    {
        LogSettings { mode: OutputMode::All, file_path: None, path_style: None }
    }
}

/// Installs the intrusion-detection log settings: the mode, the file
/// path and the path style are recorded as given.  Whether the log file
/// itself can be opened is the embedding process's concern.
pub fn set_idps_settings(settings: &mut LogSettings, mode: OutputMode, file_path: &str, path_style: &str) -> (r: Result<(), LoggerError>)
    ensures
        r is Ok,
        final(settings).mode == mode,
        final(settings).file_path matches Some(p) && p@ == file_path@,
        final(settings).path_style matches Some(p) && p@ == path_style@,
{
    settings.mode = mode;
    settings.file_path = Some(file_path.to_owned());
    settings.path_style = Some(path_style.to_owned());
    Ok(())
}

/// Which location string a log line carries: the file path, the code
/// path, nothing for "none", and the file path for anything unknown.
pub fn select_path_info<'a>(path_style: &str, log_file_path: &'a str, code_path: &'a str) -> (r:
    &'a str)
    ensures
        path_style@ == "file_path"@ ==> r@ == log_file_path@,
        path_style@ == "module"@ ==> r@ == code_path@,
        path_style@ == "none"@ ==> r@ == ""@,
        (path_style@ != "file_path"@ && path_style@ != "module"@ && path_style@ != "none"@)
            ==> r@ == log_file_path@,
{
    proof {
        reveal_strlit("file_path");
        reveal_strlit("module");
        reveal_strlit("none");
        assert("file_path"@.len() == 9);
        assert("module"@.len() == 6);
        assert("none"@.len() == 4);
    }
    if str_eq(path_style, "file_path") {
        log_file_path
    } else if str_eq(path_style, "module") {
        code_path
    } else if str_eq(path_style, "none") {
        ""
    } else {
        log_file_path
    }
}

} // verus!
