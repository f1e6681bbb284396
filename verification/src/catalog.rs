//! The applications that the catalogue `apps.json` of a drive lists.
use vstd::prelude::*;

use crate::scan::as_str;
use crate::text::{opt_str, opt_text, texts};

verus! {

/// The operating system that the manager runs on.
#[derive(Clone, Copy, Debug, PartialEq, Eq, Structural)]
pub enum Platform {
    Linux,
    Windows,
    /// Another Unix. All is done as on Linux, but drives are looked for above
    /// the executable alone.
    Unix,
}

/// An application of the catalogue. All but its name may be missing; paths are
/// relative to the root of the drive.
#[derive(Debug)]
pub struct AppEntry {
    pub name: String,
    pub exec_linux: Option<String>,
    pub exec_windows: Option<String>,
    pub icon: Option<String>,
    pub description: Option<String>,
    pub download_url: Option<String>,
    /// The script that sets the application up.
    pub setup_script: Option<String>,
}

#[verifier::ext_equal]
pub struct AppModel {
    pub name: Seq<char>,
    pub exec_linux: Option<Seq<char>>,
    pub exec_windows: Option<Seq<char>>,
    pub icon: Option<Seq<char>>,
    pub description: Option<Seq<char>>,
    pub download_url: Option<Seq<char>>,
    pub setup_script: Option<Seq<char>>,
}

impl View for AppEntry {
    type V = AppModel;

    open spec fn view(&self) -> AppModel {
        AppModel {
            name: self.name@,
            exec_linux: opt_text(self.exec_linux),
            exec_windows: opt_text(self.exec_windows),
            icon: opt_text(self.icon),
            description: opt_text(self.description),
            download_url: opt_text(self.download_url),
            setup_script: opt_text(self.setup_script),
        }
    }
}

/// The executable of an application for a platform, if it has one.
pub open spec fn exec_of(app: AppModel, platform: Platform) -> Option<Seq<char>> {
    match platform {
        Platform::Linux | Platform::Unix => app.exec_linux,
        Platform::Windows => app.exec_windows,
    }
}

impl AppEntry {
    /// The executable for a platform, if there is one.
    pub fn exec_path(&self, platform: Platform) -> (r: Option<&str>)
        ensures
            opt_str(r) == exec_of(self@, platform),
    {
        match platform {
            Platform::Linux | Platform::Unix => as_str(&self.exec_linux),
            Platform::Windows => as_str(&self.exec_windows),
        }
    }
}

/// Why a catalogue could not be had: the file could not be read, or what it
/// holds is no catalogue. Each with the reason.
#[derive(Debug)]
pub enum LoadFailure {
    Unreadable(String),
    Malformed(String),
}

/// What is said of a catalogue at `path` that could not be had.
pub open spec fn load_failure_text(path: Seq<char>, failure: LoadFailure) -> Seq<char> {
    match failure {
        LoadFailure::Unreadable(e) => path + ": "@ + e@,
        LoadFailure::Malformed(e) => e@,
    }
}

/// The applications of the catalogue that was read from `path`, or what is said
/// where it could not be had.
pub fn load_apps(path: &str, read: Result<Vec<AppEntry>, LoadFailure>) -> (r: Result<
    Vec<AppEntry>,
    String,
>)
    ensures
        match read {
            Ok(apps) => r == Ok::<Vec<AppEntry>, String>(apps),
            Err(failure) => r is Err && r->Err_0@ == load_failure_text(path@, failure),
        },
{
    match read {
        Ok(apps) => Ok(apps),
        Err(LoadFailure::Unreadable(e)) => Err(path.to_owned().concat(": ").concat(e.as_str())),
        Err(LoadFailure::Malformed(e)) => Err(e),
    }
}

/// A program to run, and its arguments.
#[derive(Debug)]
pub struct CommandLine {
    pub program: String,
    pub args: Vec<String>,
}

#[verifier::ext_equal]
pub struct CommandModel {
    pub program: Seq<char>,
    pub args: Seq<Seq<char>>,
}

impl View for CommandLine {
    type V = CommandModel;

    open spec fn view(&self) -> CommandModel {
        CommandModel { program: self.program@, args: texts(self.args@) }
    }
}

/// The command that opens an address in the browser.
pub open spec fn open_command(platform: Platform, url: Seq<char>) -> CommandModel {
    match platform {
        Platform::Linux | Platform::Unix => CommandModel { program: "xdg-open"@, args: seq![url] },
        Platform::Windows => CommandModel { program: "cmd"@, args: seq!["/c"@, "start"@, url] },
    }
}

/// The command that opens the download address of an application, if it has
/// one.
pub fn open_download_url(app: &AppEntry, platform: Platform) -> (r: Option<CommandLine>)
    ensures
        match app@.download_url {
            Some(url) => r is Some && r->0@ == open_command(platform, url),
            None => r is None,
        },
{
    match &app.download_url {
        Some(url) => {
            let mut args: Vec<String> = Vec::new();
            let program: String = match platform {
                Platform::Linux | Platform::Unix => "xdg-open".to_owned(),
                Platform::Windows => {
                    args.push("/c".to_owned());
                    args.push("start".to_owned());
                    "cmd".to_owned()
                },
            };
            args.push(url.clone());
            let r = CommandLine { program, args };
            assert(r@.args =~= open_command(platform, url@).args);
            Some(r)
        },
        None => None,
    }
}

} // verus!
