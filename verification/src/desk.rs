//! The main window: the applications, the one that is selected, and what the
//! buttons do.
//!
//! A button either changes the status line at once, or gives a job to be
//! carried out, the end of which changes it.
use vstd::prelude::*;

use crate::catalog::{exec_of, AppEntry, AppModel, Platform};
use crate::plan::{below, failure_of, place_of, Folder, FolderModel, Place, PlaceModel, Plan};
use crate::scan::{as_str, starts_with};
use crate::shortcut::{
    install_plan, install_shortcut, launch_app, launch_plan, remove_plan, remove_shortcut, Site,
};
use crate::strings::{
    error_text, launched_text, no_exec_text, no_setup_script_text, setup_missing_text,
    shortcut_ok_text, shortcut_removed_text, Lang, Strings,
};
use crate::text::{has_prefix, opt_str, opt_text};

verus! {

// ── Data ──────────────────────────────────────────────────────────────────────

/// The manager.
#[derive(Debug)]
pub struct BaluchonApp {
    /// The root of the drive, where one was found.
    pub usb_root: Option<String>,
    pub apps: Vec<AppEntry>,
    pub selected: Option<usize>,
    pub status: String,
    pub strings: Strings,
    /// Why the catalogue could not be had.
    pub load_error: Option<String>,
    /// Whether the panel of the setup assistant is open.
    pub install_panel: bool,
    /// Whether the log panel is open.
    pub setup_panel: bool,
}

/// What a job is for.
#[derive(Clone, Copy, Debug, PartialEq, Eq, Structural)]
pub enum JobKind {
    Launch,
    Install,
    Remove,
}

/// Something to be done for the application of that name.
#[derive(Debug)]
pub struct Job {
    pub kind: JobKind,
    pub name: String,
    pub plan: Plan,
}

/// How a text is shown.
#[derive(Clone, Copy, Debug, PartialEq, Eq, Structural)]
pub enum Tone {
    Good,
    Bad,
    Accent,
    Dim,
}

// ── Models ────────────────────────────────────────────────────────────────────

/// The application that is selected, if there is one.
pub open spec fn selected_of(desk: BaluchonApp) -> Option<AppModel> {
    match desk.selected {
        Some(i) => if i < desk.apps@.len() {
            Some(desk.apps@[i as int]@)
        } else {
            None
        },
        None => None,
    }
}

/// All is as before but for the status line.
pub open spec fn only_status_differs(a: BaluchonApp, b: BaluchonApp) -> bool {
    &&& a.usb_root == b.usb_root
    &&& a.apps == b.apps
    &&& a.selected == b.selected
    &&& a.strings == b.strings
    &&& a.load_error == b.load_error
    &&& a.install_panel == b.install_panel
    &&& a.setup_panel == b.setup_panel
}

/// All is as before but for the status line, which says `text`.
pub open spec fn says(a: BaluchonApp, b: BaluchonApp, text: Seq<char>) -> bool {
    only_status_differs(a, b) && b.status@ == text
}

/// What the status line says when a job has ended.
pub open spec fn job_text(
    lang: Lang,
    kind: JobKind,
    name: Seq<char>,
    failure: Option<Seq<char>>,
) -> Seq<char> {
    match failure {
        Some(e) => error_text(lang, e),
        None => match kind {
            JobKind::Launch => launched_text(lang, name),
            JobKind::Install => shortcut_ok_text(lang, name),
            JobKind::Remove => shortcut_removed_text(lang, name),
        },
    }
}

/// What a button has led to: a job with this plan and nothing changed, or, where
/// there is no plan, its reason on the status line.
pub open spec fn leads_to(
    a: BaluchonApp,
    b: BaluchonApp,
    job: Option<Job>,
    kind: JobKind,
    name: Seq<char>,
    plan: Result<crate::plan::PlanModel, Seq<char>>,
) -> bool {
    match plan {
        Ok(plan) => {
            &&& b == a
            &&& job matches Some(j) && j.kind == kind && j.name@ == name && j.plan@ == plan
        },
        Err(e) => says(a, b, error_text(a.strings.lang, e)) && job is None,
    }
}

// ── The window ────────────────────────────────────────────────────────────────

/// Makes a job of a plan.
fn job_of(kind: JobKind, name: String, plan: Plan) -> (r: Job)
    ensures
        r.kind == kind && r.name == name && r.plan == plan,
{
    Job { kind, name, plan }
}

impl BaluchonApp {
    /// The manager at its start. `drive` is the root of the drive, where one
    /// was found, with the applications of its catalogue or the reason why they
    /// could not be had.
    pub fn new(strings: Strings, drive: Option<(String, Result<Vec<AppEntry>, String>)>) -> (r:
        BaluchonApp)
        ensures
            r.strings == strings,
            r.selected is None,
            r.status@ == Seq::<char>::empty(),
            !r.install_panel && !r.setup_panel,
            match drive {
                Some((root, Ok(apps))) => r.usb_root == Some(root) && r.apps == apps
                    && r.load_error is None,
                Some((root, Err(e))) => r.usb_root == Some(root) && r.apps@.len() == 0
                    && r.load_error == Some(e),
                None => r.usb_root is None && r.apps@.len() == 0 && r.load_error is None,
            },
    {
        let (usb_root, apps, load_error): (Option<String>, Vec<AppEntry>, Option<String>) =
            match drive {
            Some((root, Ok(apps))) => (Some(root), apps, None),
            Some((root, Err(e))) => (Some(root), Vec::new(), Some(e)),
            None => (None, Vec::new(), None),
        };
        BaluchonApp {
            usb_root,
            apps,
            selected: None,
            status: String::new(),
            strings,
            load_error,
            install_panel: false,
            setup_panel: false,
        }
    }

    /// The application that is selected, if there is one.
    pub fn selected_app(&self) -> (r: Option<&AppEntry>)
        ensures
            match r {
                Some(app) => selected_of(*self) == Some(app@),
                None => selected_of(*self) is None,
            },
    {
        match self.selected {
            Some(i) => if i < self.apps.len() {
                Some(&self.apps[i])
            } else {
                None
            },
            None => None,
        }
    }

    /// Selects an application.
    pub fn select(&mut self, i: usize)
        ensures
            *final(self) == (BaluchonApp { selected: Some(i), ..*old(self) }),
    {
        self.selected = Some(i);
    }

    /// Sets the language.
    pub fn set_lang(&mut self, lang: Lang)
        ensures
            *final(self) == (BaluchonApp { strings: Strings { lang }, ..*old(self) }),
    {
        self.strings = Strings { lang };
    }

    /// The button that launches the selected application.
    pub fn action_launch(&mut self, platform: Platform) -> (r: Option<Job>)
        ensures
            match (selected_of(*old(self)), old(self).usb_root) {
                (Some(app), Some(_)) => leads_to(
                    *old(self),
                    *final(self),
                    r,
                    JobKind::Launch,
                    app.name,
                    launch_plan(app, platform),
                ),
                _ => says(*old(self), *final(self), no_exec_text(old(self).strings.lang))
                    && r is None,
            },
    {
        let made: Option<(String, Result<Plan, String>)> = match (
            self.selected_app(),
            as_str(&self.usb_root),
        ) {
            (Some(app), Some(_)) => Some((app.name.clone(), launch_app(app, platform))),
            _ => None,
        };
        match made {
            Some((name, Ok(plan))) => Some(job_of(JobKind::Launch, name, plan)),
            Some((_, Err(e))) => {
                self.status = self.strings.msg_error(e.as_str());
                None
            },
            None => {
                self.status = self.strings.msg_no_exec();
                None
            },
        }
    }

    /// The button that installs the shortcut of the selected application.
    pub fn action_install(&mut self, site: &Site) -> (r: Option<Job>)
        ensures
            match (selected_of(*old(self)), opt_text(old(self).usb_root)) {
                (Some(app), Some(root)) => leads_to(
                    *old(self),
                    *final(self),
                    r,
                    JobKind::Install,
                    app.name,
                    install_plan(app, root, site@),
                ),
                _ => *final(self) == *old(self) && r is None,
            },
    {
        let made: Option<(String, Result<Plan, String>)> = match (
            self.selected_app(),
            as_str(&self.usb_root),
        ) {
            (Some(app), Some(root)) => Some((app.name.clone(), install_shortcut(app, root, site))),
            _ => None,
        };
        match made {
            Some((name, Ok(plan))) => Some(job_of(JobKind::Install, name, plan)),
            Some((_, Err(e))) => {
                self.status = self.strings.msg_error(e.as_str());
                None
            },
            None => None,
        }
    }

    /// The button that removes the shortcut of the selected application.
    pub fn action_remove(&mut self, site: &Site) -> (r: Option<Job>)
        ensures
            match selected_of(*old(self)) {
                Some(app) => leads_to(
                    *old(self),
                    *final(self),
                    r,
                    JobKind::Remove,
                    app.name,
                    remove_plan(app, site@),
                ),
                None => *final(self) == *old(self) && r is None,
            },
    {
        let made: Option<(String, Result<Plan, String>)> = match self.selected_app() {
            Some(app) => Some((app.name.clone(), remove_shortcut(app, site))),
            None => None,
        };
        match made {
            Some((name, Ok(plan))) => Some(job_of(JobKind::Remove, name, plan)),
            Some((_, Err(e))) => {
                self.status = self.strings.msg_error(e.as_str());
                None
            },
            None => None,
        }
    }

    /// Says on the status line how a job ended.
    pub fn finish(&mut self, kind: JobKind, name: &str, outcome: Result<(), String>)
        ensures
            says(
                *old(self),
                *final(self),
                job_text(old(self).strings.lang, kind, name@, failure_of(outcome)),
            ),
    {
        self.status = match outcome {
            Err(e) => self.strings.msg_error(e.as_str()),
            Ok(_) => match kind {
                JobKind::Launch => self.strings.msg_launched(name),
                JobKind::Install => self.strings.msg_shortcut_ok(name),
                JobKind::Remove => self.strings.msg_shortcut_removed(name),
            },
        };
    }

    /// The button that runs the setup script of the selected application: the
    /// path of the script, relative to the root of the drive.
    pub fn action_download(&mut self) -> (r: Option<String>)
        ensures
            match (old(self).usb_root, selected_of(*old(self))) {
                (None, _) => says(*old(self), *final(self), no_exec_text(old(self).strings.lang))
                    && r is None,
                (Some(_), Some(app)) if app.setup_script is Some => *final(self) == *old(self)
                    && opt_text(r) == app.setup_script,
                _ => says(
                    *old(self),
                    *final(self),
                    no_setup_script_text(old(self).strings.lang),
                ) && r is None,
            },
    {
        if self.usb_root.is_none() {
            self.status = self.strings.msg_no_exec();
            return None;
        }
        let script: Option<String> = match self.selected_app() {
            Some(app) => app.setup_script.clone(),
            None => None,
        };
        if script.is_none() {
            self.status = self.strings.msg_no_setup_script();
        }
        script
    }

    /// Whether the setup script at `path` is run: it is where it exists, and
    /// its panel opens; else the status line says that it does not exist.
    pub fn setup_checked(&mut self, path: &str, exists_there: bool) -> (r: bool)
        ensures
            r == exists_there,
            exists_there ==> *final(self) == (BaluchonApp { install_panel: true, ..*old(self) }),
            !exists_there ==> says(
                *old(self),
                *final(self),
                setup_missing_text(old(self).strings.lang, path@),
            ),
    {
        if exists_there {
            self.install_panel = true;
        } else {
            self.status = self.strings.msg_setup_missing(path);
        }
        exists_there
    }

    /// Closes the panels that are not to stay open.
    pub fn keep_panels(&mut self, keep_install: bool, keep_setup: bool)
        ensures
            *final(self) == (BaluchonApp {
                install_panel: old(self).install_panel && keep_install,
                setup_panel: old(self).setup_panel && keep_setup,
                ..*old(self)
            }),
    {
        self.install_panel = self.install_panel && keep_install;
        self.setup_panel = self.setup_panel && keep_setup;
    }

    /// Whether the buttons for the selected application can be pressed.
    pub fn has_selection(&self) -> (r: bool)
        ensures
            r == (self.selected is Some && self.usb_root is Some),
    {
        self.selected.is_some() && self.usb_root.is_some()
    }

    /// Whether the button for its setup can be pressed: not while its panel is
    /// open.
    pub fn can_download(&self) -> (r: bool)
        ensures
            r == (self.selected is Some && self.usb_root is Some && !self.install_panel),
    {
        self.has_selection() && !self.install_panel
    }

    /// How the status line is shown.
    pub fn status_tone(&self) -> (r: Tone)
        ensures
            r == tone_of_status(self.status@),
    {
        if starts_with(self.status.as_str(), "❌") {
            Tone::Bad
        } else {
            Tone::Good
        }
    }

    /// What the header says of a catalogue that could not be had.
    pub fn load_error_label(&self) -> (r: Option<String>)
        ensures
            opt_text(r) == match self.load_error {
                Some(e) => Some("❌ "@ + e@),
                None => None,
            },
    {
        match &self.load_error {
            Some(e) => Some("❌ ".to_owned().concat(e.as_str())),
            None => None,
        }
    }
}

/// How a status line is shown: as bad news where it begins with a cross.
pub open spec fn tone_of_status(status: Seq<char>) -> Tone {
    if has_prefix(status, "❌"@) {
        Tone::Bad
    } else {
        Tone::Good
    }
}

// ── Details and icons ─────────────────────────────────────────────────────────

/// What is shown of the selected application, below its name and description.
#[derive(Debug)]
pub struct Details {
    pub os: String,
    pub program: String,
    pub url: Option<String>,
    pub desktop: Option<String>,
}

/// What is shown of an application; `desktop` is the name of the desktop
/// environment, where there is one to be shown.
pub fn details(app: &AppEntry, platform: Platform, desktop: Option<&str>) -> (r: Details)
    ensures
        r.os@ == match platform {
            Platform::Linux | Platform::Unix => "OS : Linux"@,
            Platform::Windows => "OS : Windows"@,
        },
        r.program@ == "Exec : "@ + match exec_of(app@, platform) {
            Some(exec) => exec,
            None => "—"@,
        },
        opt_text(r.url) == match app@.download_url {
            Some(url) => Some("URL : "@ + url),
            None => None,
        },
        opt_text(r.desktop) == match opt_str(desktop) {
            Some(name) => Some("DE : "@ + name),
            None => None,
        },
{
    let os: String = match platform {
        Platform::Linux | Platform::Unix => "OS : Linux".to_owned(),
        Platform::Windows => "OS : Windows".to_owned(),
    };
    let exec: &str = match app.exec_path(platform) {
        Some(exec) => exec,
        None => "—",
    };
    let url: Option<String> = match &app.download_url {
        Some(url) => Some("URL : ".to_owned().concat(url.as_str())),
        None => None,
    };
    let desktop: Option<String> = match desktop {
        Some(name) => Some("DE : ".to_owned().concat(name)),
        None => None,
    };
    Details { os, program: "Exec : ".to_owned().concat(exec), url, desktop }
}

/// The mark of an application in the list, and how it is shown: whether it can
/// be launched on the platform.
pub fn launch_mark(app: &AppEntry, platform: Platform) -> (r: (&'static str, Tone))
    ensures
        exec_of(app@, platform) is Some ==> r.0@ == "●"@ && r.1 == Tone::Good,
        exec_of(app@, platform) is None ==> r.0@ == "○"@ && r.1 == Tone::Bad,
{
    if app.exec_path(platform).is_some() {
        ("●", Tone::Good)
    } else {
        ("○", Tone::Bad)
    }
}

/// The models of a list of places.
pub open spec fn place_models(places: Seq<Place>) -> Seq<PlaceModel> {
    places.map_values(|p: Place| p@)
}

/// Where the logo may be, in the order in which it is looked for: beside the
/// executable, and at the root of the drive.
pub open spec fn logo_candidates(exe_known: bool, root_known: bool) -> Seq<PlaceModel> {
    (if exe_known {
        seq![below(FolderModel::ExeDir, seq!["baluchon.png"@])]
    } else {
        Seq::empty()
    }) + (if root_known {
        seq![below(FolderModel::UsbRoot, seq!["baluchon.png"@])]
    } else {
        Seq::empty()
    })
}

/// Where the logo may be.
pub fn logo_places(exe_known: bool, root_known: bool) -> (r: Vec<Place>)
    ensures
        place_models(r@) == logo_candidates(exe_known, root_known),
{
    let mut r: Vec<Place> = Vec::new();
    if exe_known {
        r.push(place_of(Folder::ExeDir, "baluchon.png"));
    }
    if root_known {
        r.push(place_of(Folder::UsbRoot, "baluchon.png"));
    }
    assert(place_models(r@) =~= logo_candidates(exe_known, root_known));
    r
}

// ── Laws ──────────────────────────────────────────────────────────────────────

/// The status line is shown as bad news exactly where a job has failed.
pub proof fn law_bad_news_is_shown_as_such(
    lang: Lang,
    kind: JobKind,
    name: Seq<char>,
    failure: Option<Seq<char>>,
)
    ensures
        tone_of_status(job_text(lang, kind, name, failure)) == if failure is Some {
            Tone::Bad
        } else {
            Tone::Good
        },
{
    let text = job_text(lang, kind, name, failure);
    reveal_strlit("❌");
    assert("❌"@.len() == 1);
    assert("❌"@[0] == '❌');
    reveal_strlit("❌ Erreur : ");
    reveal_strlit("❌ Error: ");
    reveal_strlit("✅ ");
    reveal_strlit("✅ Raccourci installé pour ");
    reveal_strlit("✅ Shortcut installed for ");
    reveal_strlit("🗑 Raccourci supprimé pour ");
    reveal_strlit("🗑 Shortcut removed for ");
    if failure is Some {
        assert(text[0] == '❌');
        assert(text.take(1) =~= "❌"@);
    } else {
        assert(text[0] != '❌');
        assert(text.take(1)[0] == text[0]);
    }
}

/// The refusals of the buttons are bad news too.
pub proof fn law_refusals_are_bad_news(lang: Lang, path: Seq<char>)
    ensures
        tone_of_status(no_exec_text(lang)) == Tone::Bad,
        tone_of_status(no_setup_script_text(lang)) == Tone::Bad,
        tone_of_status(setup_missing_text(lang, path)) == Tone::Bad,
{
    lemma_first_marks(lang);
    reveal_strlit("❌");
    reveal_strlit("❌ Script introuvable : ");
    reveal_strlit("❌ Script not found: ");
    assert(no_exec_text(lang).take(1) =~= "❌"@);
    assert(no_setup_script_text(lang).take(1) =~= "❌"@);
    assert(setup_missing_text(lang, path)[0] == '❌');
    assert(setup_missing_text(lang, path).take(1) =~= "❌"@);
}

proof fn lemma_first_marks(lang: Lang)
    ensures
        no_exec_text(lang).len() > 0 && no_exec_text(lang)[0] == '❌',
        no_setup_script_text(lang).len() > 0 && no_setup_script_text(lang)[0] == '❌',
{
    reveal_strlit("❌ Pas d'exécutable défini pour cet OS");
    reveal_strlit("❌ No executable defined for this OS");
    reveal_strlit("❌ Aucun setup_script défini pour cette app");
    reveal_strlit("❌ No setup_script defined for this app");
}

} // verus!
