//! What the main window does.
use vstd::prelude::*;

use crate::catalog::{load_apps, open_download_url, AppEntry, CommandLine, LoadFailure, Platform};
use crate::desk::{
    details, launch_mark, logo_candidates, logo_places, place_models, BaluchonApp, Details, Job,
    JobKind, Tone,
};
use crate::icon::{decoded, load_icon, Picture};
use crate::laws::of_runs::is_command;
use crate::laws::of_shortcuts::has_parts;
use crate::plan::{Place, Plan};
use crate::shortcut::{install_shortcut, launch_app, remove_shortcut, Site};
use crate::strings::{Lang, Strings};
use crate::text::texts;

verus! {

// ── The catalogue ─────────────────────────────────────────────────────────────

/// The executable of an application is that of the platform, and none where it
/// has none for it, whatever it has for another.
pub proof fn law_executables(app: &AppEntry, platform: Platform, r: Option<&str>)
    requires
        call_ensures(AppEntry::exec_path, (app, platform), r),
    ensures
        ({
            let own = if platform == Platform::Windows {
                app.exec_windows
            } else {
                app.exec_linux
            };
            &&& r is Some <==> own is Some
            &&& own is Some ==> r->0@ == own->0@
        }),
{
}

/// A catalogue that was read is the catalogue. Of one that was not, the reason is
/// given, behind the path of the file where that could not be read.
pub proof fn law_catalogues(
    path: &str,
    read: Result<Vec<AppEntry>, LoadFailure>,
    r: Result<Vec<AppEntry>, String>,
)
    requires
        call_ensures(load_apps, (path, read), r),
    ensures
        read matches Ok(apps) ==> (r matches Ok(list) && list == apps),
        read matches Err(LoadFailure::Unreadable(e)) ==> (r matches Err(t) && t@ == path@ + ": "@
            + e@),
        read matches Err(LoadFailure::Malformed(e)) ==> (r matches Err(t) && t@ == e@),
{
}

/// The address of an application is opened by `xdg-open`, or on Windows by
/// `start`; without an address there is nothing to open.
pub proof fn law_addresses(app: &AppEntry, platform: Platform, r: Option<CommandLine>)
    requires
        call_ensures(open_download_url, (app, platform), r),
    ensures
        r is Some <==> app.download_url is Some,
        app.download_url is Some && platform == Platform::Windows ==> is_command(
            r->0,
            "cmd"@,
            seq!["/c"@, "start"@, app.download_url->0@],
        ),
        app.download_url is Some && platform != Platform::Windows ==> is_command(
            r->0,
            "xdg-open"@,
            seq![app.download_url->0@],
        ),
{
    if app.download_url is Some {
        let cmd = r->0;
        let args = if platform == Platform::Windows {
            seq!["/c"@, "start"@, app.download_url->0@]
        } else {
            seq![app.download_url->0@]
        };
        assert(cmd@.args == args);
        assert(texts(cmd.args@).len() == cmd.args@.len());
        assert forall|i: int| 0 <= i < args.len() implies (#[trigger] cmd.args@[i])@ == args[i] by {
            assert(texts(cmd.args@)[i] == cmd.args@[i]@);
        }
    }
}

// ── The start ─────────────────────────────────────────────────────────────────

/// At the start nothing is selected, said or open. With a drive, its root is
/// known, and its applications or the reason why there are none; without one,
/// neither.
pub proof fn law_starts(
    strings: Strings,
    drive: Option<(String, Result<Vec<AppEntry>, String>)>,
    r: BaluchonApp,
)
    requires
        call_ensures(BaluchonApp::new, (strings, drive), r),
    ensures
        r.strings.lang == strings.lang,
        r.selected is None && r.status@.len() == 0 && !r.install_panel && !r.setup_panel,
        drive is None ==> r.usb_root is None && r.apps@.len() == 0 && r.load_error is None,
        drive matches Some((root, read)) ==> {
            &&& r.usb_root is Some && r.usb_root->0@ == root@
            &&& read matches Ok(apps) ==> r.apps@ == apps@ && r.load_error is None
            &&& read matches Err(e) ==> r.apps@.len() == 0 && r.load_error is Some
                && r.load_error->0@ == e@
        },
{
}

/// What the header says of a catalogue is the reason, behind a cross.
pub proof fn law_load_errors(desk: &BaluchonApp, r: Option<String>)
    requires
        call_ensures(BaluchonApp::load_error_label, (desk,), r),
    ensures
        r is Some <==> desk.load_error is Some,
        desk.load_error matches Some(e) ==> r->0@ == "❌ "@ + e@,
{
}

// ── Selecting ─────────────────────────────────────────────────────────────────

/// The application that is selected is the one at its place in the list, if
/// there is one at that place.
pub proof fn law_selection(desk: &BaluchonApp, r: Option<&AppEntry>)
    requires
        call_ensures(BaluchonApp::selected_app, (desk,), r),
    ensures
        r is Some <==> desk.selected is Some && desk.selected->0 < desk.apps@.len(),
        r matches Some(app) ==> app@ == desk.apps@[desk.selected->0 as int]@ && app.name@
            == desk.apps@[desk.selected->0 as int].name@,
{
}

/// All but the status line is as before.
pub open spec fn only_status(a: BaluchonApp, b: BaluchonApp) -> bool {
    &&& a.usb_root == b.usb_root && a.apps == b.apps && a.selected == b.selected
    &&& a.strings.lang == b.strings.lang && a.load_error == b.load_error
    &&& a.install_panel == b.install_panel && a.setup_panel == b.setup_panel
}

/// Selecting and choosing a language change that and nothing else.
pub proof fn law_choices(a: &mut BaluchonApp, i: usize, b: &mut BaluchonApp, lang: Lang)
    requires
        call_ensures(BaluchonApp::select, (a, i), ()),
        call_ensures(BaluchonApp::set_lang, (b, lang), ()),
    ensures
        final(a).selected == Some(i),
        only_status(*final(a), BaluchonApp { selected: Some(i), ..*old(a) }),
        final(a).status@ == old(a).status@,
        final(b).strings.lang == lang,
        only_status(*final(b), BaluchonApp { strings: Strings { lang }, ..*old(b) }),
        final(b).status@ == old(b).status@,
{
}

/// The buttons can be pressed where an application is selected and there is a
/// drive; that for the setup only while its panel is closed.
pub proof fn law_buttons_that_work(desk: &BaluchonApp, a: bool, b: bool)
    requires
        call_ensures(BaluchonApp::has_selection, (desk,), a),
        call_ensures(BaluchonApp::can_download, (desk,), b),
    ensures
        a <==> desk.selected is Some && desk.usb_root is Some,
        b <==> desk.selected is Some && desk.usb_root is Some && !desk.install_panel,
{
}

// ── The buttons ───────────────────────────────────────────────────────────────

/// There is an application that is selected.
pub open spec fn is_selected(desk: BaluchonApp, app: AppEntry) -> bool {
    desk.selected is Some && desk.selected->0 < desk.apps@.len()
        && desk.apps@[desk.selected->0 as int] == app
}

/// No application is selected.
pub open spec fn is_unselected(desk: BaluchonApp) -> bool {
    desk.selected is None || desk.selected->0 >= desk.apps@.len()
}

/// The job is of that kind, for that application, and has that plan.
pub open spec fn is_job(job: Option<Job>, kind: JobKind, app: AppEntry, plan: Plan) -> bool {
    job matches Some(j) && j.kind == kind && j.name@ == app.name@ && j.plan@ == plan@
}

/// The button that launches: with an application and a drive there is the job of
/// launching it, or the reason why it cannot be on the status line; without, the
/// status line says that there is nothing to launch.
pub proof fn law_launch_button(
    desk: &mut BaluchonApp,
    platform: Platform,
    job: Option<Job>,
    app: &AppEntry,
    plan: Result<Plan, String>,
    strings: &Strings,
    reason: &str,
    error: String,
    nothing: String,
)
    requires
        call_ensures(BaluchonApp::action_launch, (desk, platform), job),
        call_ensures(launch_app, (app, platform), plan),
        *strings == old(desk).strings,
        plan matches Err(e) ==> reason@ == e@,
        call_ensures(Strings::msg_error, (strings, reason), error),
        call_ensures(Strings::msg_no_exec, (strings,), nothing),
    ensures
        only_status(*final(desk), *old(desk)),
        is_selected(*old(desk), *app) && old(desk).usb_root is Some ==> match plan {
            Ok(p) => is_job(job, JobKind::Launch, *app, p) && final(desk).status@
                == old(desk).status@,
            Err(_) => job is None && final(desk).status@ == error@,
        },
        is_unselected(*old(desk)) || old(desk).usb_root is None ==> job is None
            && final(desk).status@ == nothing@,
{
}

/// The button that installs: with an application and a drive there is the job of
/// installing its shortcut, or the reason why it cannot be on the status line;
/// without, nothing happens.
pub proof fn law_install_button(
    desk: &mut BaluchonApp,
    site: &Site,
    job: Option<Job>,
    app: &AppEntry,
    root: &str,
    plan: Result<Plan, String>,
    strings: &Strings,
    reason: &str,
    error: String,
)
    requires
        call_ensures(BaluchonApp::action_install, (desk, site), job),
        old(desk).usb_root is Some ==> root@ == old(desk).usb_root->0@,
        call_ensures(install_shortcut, (app, root, site), plan),
        *strings == old(desk).strings,
        plan matches Err(e) ==> reason@ == e@,
        call_ensures(Strings::msg_error, (strings, reason), error),
    ensures
        only_status(*final(desk), *old(desk)),
        is_selected(*old(desk), *app) && old(desk).usb_root is Some ==> match plan {
            Ok(p) => is_job(job, JobKind::Install, *app, p) && final(desk).status@
                == old(desk).status@,
            Err(_) => job is None && final(desk).status@ == error@,
        },
        is_unselected(*old(desk)) || old(desk).usb_root is None ==> job is None
            && final(desk).status@ == old(desk).status@,
{
}

/// The button that removes: with an application there is the job of removing its
/// shortcut, drive or not, or the reason why it cannot be on the status line;
/// without, nothing happens.
pub proof fn law_remove_button(
    desk: &mut BaluchonApp,
    site: &Site,
    job: Option<Job>,
    app: &AppEntry,
    plan: Result<Plan, String>,
    strings: &Strings,
    reason: &str,
    error: String,
)
    requires
        call_ensures(BaluchonApp::action_remove, (desk, site), job),
        call_ensures(remove_shortcut, (app, site), plan),
        *strings == old(desk).strings,
        plan matches Err(e) ==> reason@ == e@,
        call_ensures(Strings::msg_error, (strings, reason), error),
    ensures
        only_status(*final(desk), *old(desk)),
        is_selected(*old(desk), *app) ==> match plan {
            Ok(p) => is_job(job, JobKind::Remove, *app, p) && final(desk).status@
                == old(desk).status@,
            Err(_) => job is None && final(desk).status@ == error@,
        },
        is_unselected(*old(desk)) ==> job is None && final(desk).status@ == old(desk).status@,
{
}

/// When a job has ended, the status line says so: with the reason where it
/// failed, and else with the name of the application and what was done for it.
pub proof fn law_ends_of_jobs(
    desk: &mut BaluchonApp,
    kind: JobKind,
    name: &str,
    outcome: Result<(), String>,
    strings: &Strings,
    reason: &str,
    error: String,
    launched: String,
    installed: String,
    removed: String,
)
    requires
        call_ensures(BaluchonApp::finish, (desk, kind, name, outcome), ()),
        *strings == old(desk).strings,
        outcome matches Err(e) ==> reason@ == e@,
        call_ensures(Strings::msg_error, (strings, reason), error),
        call_ensures(Strings::msg_launched, (strings, name), launched),
        call_ensures(Strings::msg_shortcut_ok, (strings, name), installed),
        call_ensures(Strings::msg_shortcut_removed, (strings, name), removed),
    ensures
        only_status(*final(desk), *old(desk)),
        outcome is Err ==> final(desk).status@ == error@,
        outcome is Ok && kind == JobKind::Launch ==> final(desk).status@ == launched@,
        outcome is Ok && kind == JobKind::Install ==> final(desk).status@ == installed@,
        outcome is Ok && kind == JobKind::Remove ==> final(desk).status@ == removed@,
{
}

/// The button that sets up gives the script of the selected application. Where
/// there is no drive, or else no script, it says so and gives none.
pub proof fn law_setup_button(
    desk: &mut BaluchonApp,
    r: Option<String>,
    app: &AppEntry,
    strings: &Strings,
    nothing: String,
    no_script: String,
)
    requires
        call_ensures(BaluchonApp::action_download, (desk,), r),
        *strings == old(desk).strings,
        call_ensures(Strings::msg_no_exec, (strings,), nothing),
        call_ensures(Strings::msg_no_setup_script, (strings,), no_script),
    ensures
        only_status(*final(desk), *old(desk)),
        old(desk).usb_root is None ==> r is None && final(desk).status@ == nothing@,
        old(desk).usb_root is Some && (is_unselected(*old(desk)) || is_selected(*old(desk), *app)
            && app.setup_script is None) ==> r is None && final(desk).status@ == no_script@,
        old(desk).usb_root is Some && is_selected(*old(desk), *app) && app.setup_script is Some
            ==> r is Some && r->0@ == app.setup_script->0@ && final(desk).status@
            == old(desk).status@,
{
}

/// A script that exists is run, and its panel opens; of one that does not, the
/// status line gives the path.
pub proof fn law_scripts_that_exist(
    desk: &mut BaluchonApp,
    path: &str,
    there: bool,
    r: bool,
    strings: &Strings,
    missing: String,
)
    requires
        call_ensures(BaluchonApp::setup_checked, (desk, path, there), r),
        *strings == old(desk).strings,
        call_ensures(Strings::msg_setup_missing, (strings, path), missing),
    ensures
        r == there,
        there ==> final(desk).install_panel && final(desk).status@ == old(desk).status@
            && only_status(*final(desk), BaluchonApp { install_panel: true, ..*old(desk) }),
        !there ==> final(desk).status@ == missing@ && only_status(*final(desk), *old(desk)),
{
}

/// A panel is open afterwards exactly where it was open and is to be kept; the
/// one does not depend on the other.
pub proof fn law_panels_kept(desk: &mut BaluchonApp, install: bool, setup: bool)
    requires
        call_ensures(BaluchonApp::keep_panels, (desk, install, setup), ()),
    ensures
        final(desk).install_panel == (old(desk).install_panel && install),
        final(desk).setup_panel == (old(desk).setup_panel && setup),
        final(desk).status@ == old(desk).status@,
        only_status(
            *final(desk),
            BaluchonApp {
                install_panel: final(desk).install_panel,
                setup_panel: final(desk).setup_panel,
                ..*old(desk)
            },
        ),
{
}

/// The status line is bad news exactly where it begins with a cross.
pub proof fn law_status_tones(desk: &BaluchonApp, r: Tone)
    requires
        call_ensures(BaluchonApp::status_tone, (desk,), r),
    ensures
        desk.status@.len() > 0 && desk.status@[0] == '❌' ==> r == Tone::Bad,
        !(desk.status@.len() > 0 && desk.status@[0] == '❌') ==> r == Tone::Good,
{
    reveal_strlit("❌");
    let s = desk.status@;
    if s.len() > 0 {
        assert(s.take(1)[0] == s[0]);
        if s[0] == '❌' {
            assert(s.take(1) =~= "❌"@);
        }
    }
}

// ── What is shown ─────────────────────────────────────────────────────────────

/// What is shown of an application: the system, its executable for it or a dash,
/// its address and the environment, these two where there are such.
pub proof fn law_details(
    app: &AppEntry,
    platform: Platform,
    desktop: Option<&str>,
    r: Details,
    exec: Option<&str>,
)
    requires
        call_ensures(details, (app, platform, desktop), r),
        call_ensures(AppEntry::exec_path, (app, platform), exec),
    ensures
        platform == Platform::Windows ==> r.os@ == "OS : Windows"@,
        platform != Platform::Windows ==> r.os@ == "OS : Linux"@,
        exec matches Some(e) ==> r.program@ == "Exec : "@ + e@,
        exec is None ==> r.program@ == "Exec : "@ + "—"@,
        r.url is Some <==> app.download_url is Some,
        app.download_url matches Some(u) ==> r.url->0@ == "URL : "@ + u@,
        r.desktop is Some <==> desktop is Some,
        desktop matches Some(d) ==> r.desktop->0@ == "DE : "@ + d@,
{
}

/// The mark of an application tells whether it can be launched.
pub proof fn law_marks(
    app: &AppEntry,
    platform: Platform,
    r: (&'static str, Tone),
    plan: Result<Plan, String>,
)
    requires
        call_ensures(launch_mark, (app, platform), r),
        call_ensures(launch_app, (app, platform), plan),
    ensures
        plan is Ok ==> r.0@ == "●"@ && r.1 == Tone::Good,
        plan is Err ==> r.0@ == "○"@ && r.1 == Tone::Bad,
{
}

/// The logo is looked for beside the executable and then at the root of the
/// drive, each where it is known.
pub proof fn law_logos(exe_known: bool, root_known: bool, r: Vec<Place>)
    requires
        call_ensures(logo_places, (exe_known, root_known), r),
    ensures
        r@.len() == (if exe_known {
            1int
        } else {
            0
        }) + (if root_known {
            1int
        } else {
            0
        }),
        exe_known ==> r@[0].folder is ExeDir && has_parts(r@[0], seq!["baluchon.png"@]),
        root_known ==> r@.last().folder is UsbRoot && has_parts(r@.last(), seq!["baluchon.png"@]),
{
    let m = place_models(r@);
    assert(m == logo_candidates(exe_known, root_known));
    assert(m.len() == r@.len());
    if exe_known {
        assert(m[0] == r@[0]@);
        lemma_one_part(r@[0]);
    }
    if root_known {
        assert(m.last() == r@.last()@);
        lemma_one_part(r@.last());
    }
}

proof fn lemma_one_part(p: Place)
    requires
        p@.path == seq!["baluchon.png"@],
    ensures
        has_parts(p, seq!["baluchon.png"@]),
{
    assert(texts(p.path@).len() == p.path@.len());
    assert(texts(p.path@)[0] == p.path@[0]@);
}

/// A picture is what its file holds: as wide and as high, with the same pixels,
/// four bytes for each; of a file that holds none there is none.
pub proof fn law_pictures(bytes: &[u8], r: Option<Picture>)
    requires
        call_ensures(load_icon, (bytes,), r),
    ensures
        r is Some <==> decoded(bytes@) is Some,
        r matches Some(p) ==> decoded(bytes@) == Some((p.width, p.height, p.rgba@)) && p.rgba@.len()
            == 4 * p.width * p.height,
{
}

} // verus!
