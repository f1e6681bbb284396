//! What is done to install, remove and launch, and how a plan is carried out.
use vstd::prelude::*;

use crate::catalog::{AppEntry, Platform};
use crate::plan::{
    is_running, place_itself, place_of, place_of_two, push_may, push_must, Folder, Op, OpModel,
    Place, Plan, Run, Step, StepModel,
};
use crate::scan::{contains, join_path, replaced};
use crate::shortcut::{
    desktop_file_name, desktop_is_shown, detect_desktop, install_plan, install_shortcut, launch_app,
    launch_plan, link_outcome, link_script, plan_of, prepare_script, remove_plan, remove_shortcut,
    script_plan, Site,
};
use crate::text::{lower_case, replace_char, texts};

verus! {

// ── Places and steps ──────────────────────────────────────────────────────────

/// The path of a place has exactly these parts.
pub open spec fn has_parts(p: Place, parts: Seq<Seq<char>>) -> bool {
    &&& p.path@.len() == parts.len()
    &&& forall|i: int| 0 <= i < parts.len() ==> (#[trigger] p.path@[i])@ == parts[i]
}

/// The place is that path on the drive.
pub open spec fn on_drive(p: Place, parts: Seq<Seq<char>>) -> bool {
    p.folder is UsbRoot && has_parts(p, parts)
}

/// The place is that path on the desktop.
pub open spec fn on_desktop(p: Place, parts: Seq<Seq<char>>) -> bool {
    p.folder is Desktop && has_parts(p, parts)
}

/// The place is that path among the user's data: in the directory for it, or in
/// `~/.local/share` where that is not known.
pub open spec fn in_data(p: Place, known: bool, parts: Seq<Seq<char>>) -> bool {
    &&& known ==> p.folder is LocalData
    &&& !known ==> (p.folder matches Folder::At(d) && d@ == "~/.local/share"@)
    &&& has_parts(p, parts)
}

/// The place is that path among the user's roaming data.
pub open spec fn in_roaming(p: Place, parts: Seq<Seq<char>>) -> bool {
    p.folder is RoamingData && has_parts(p, parts)
}

proof fn lemma_parts(p: Place, parts: Seq<Seq<char>>)
    requires
        p@.path == parts,
    ensures
        has_parts(p, parts),
{
    assert(texts(p.path@).len() == p.path@.len());
    assert forall|i: int| 0 <= i < parts.len() implies (#[trigger] p.path@[i])@ == parts[i] by {
        assert(texts(p.path@)[i] == p.path@[i]@);
    }
}

proof fn lemma_step(plan: Plan, i: int)
    requires
        0 <= i < plan.steps@.len(),
    ensures
        plan@.steps[i] == plan.steps@[i]@,
        plan@.steps.len() == plan.steps@.len(),
{
}

/// A place is made of the folder and the parts that it is made with.
pub proof fn law_places(
    folder: Folder,
    first: &str,
    second: &str,
    none: Place,
    one: Place,
    two: Place,
)
    requires
        call_ensures(place_itself, (folder,), none),
        call_ensures(place_of, (folder, first), one),
        call_ensures(place_of_two, (folder, first, second), two),
    ensures
        has_parts(none, Seq::empty()),
        has_parts(one, seq![first@]),
        has_parts(two, seq![first@, second@]),
        folder is UsbRoot ==> none.folder is UsbRoot && one.folder is UsbRoot
            && two.folder is UsbRoot,
        folder is Desktop ==> one.folder is Desktop,
        folder is LocalData ==> one.folder is LocalData && two.folder is LocalData,
        folder is RoamingData ==> one.folder is RoamingData && two.folder is RoamingData,
        folder is ExeDir ==> one.folder is ExeDir,
{
    lemma_parts(none, Seq::empty());
    lemma_parts(one, seq![first@]);
    lemma_parts(two, seq![first@, second@]);
}

// ── Names ─────────────────────────────────────────────────────────────────────

proof fn lemma_underscores(s: Seq<char>)
    ensures
        replace_char(s, ' ', "_"@).len() == s.len(),
        forall|i: int|
            0 <= i < s.len() ==> #[trigger] replace_char(s, ' ', "_"@)[i] == if s[i] == ' ' {
                '_'
            } else {
                s[i]
            },
    decreases s.len(),
{
    reveal_strlit("_");
    if s.len() > 0 {
        lemma_underscores(s.drop_last());
        let r = replace_char(s, ' ', "_"@);
        let q = replace_char(s.drop_last(), ' ', "_"@);
        assert forall|i: int| 0 <= i < s.len() implies #[trigger] r[i] == if s[i] == ' ' {
            '_'
        } else {
            s[i]
        } by {
            if i < s.len() - 1 {
                assert(r[i] == q[i]);
                assert(s.drop_last()[i] == s[i]);
            }
        }
    }
}

/// A shortcut is named after its application: character for character the name,
/// with underscores for spaces, and then `.desktop`.
pub proof fn law_names_of_shortcuts(lowered: &str, r: String)
    requires
        call_ensures(desktop_file_name, (lowered,), r),
    ensures
        r@.len() == lowered@.len() + 8,
        forall|i: int|
            0 <= i < lowered@.len() ==> #[trigger] r@[i] == if lowered@[i] == ' ' {
                '_'
            } else {
                lowered@[i]
            },
        r@.skip(lowered@.len() as int) == ".desktop"@,
{
    lemma_underscores(lowered@);
    reveal_strlit(".desktop");
    let q = replace_char(lowered@, ' ', "_"@);
    assert(r@ == q + ".desktop"@);
    assert(r@.skip(lowered@.len() as int) =~= ".desktop"@);
}

/// The desktop is shown by GNOME, KDE, Cinnamon and XFCE, wherever these names
/// stand in that of the environment, and by no other.
pub proof fn law_environments(lowered: &str, r: bool, g: bool, k: bool, c: bool, x: bool)
    requires
        call_ensures(desktop_is_shown, (lowered,), r),
        call_ensures(contains, (lowered, "gnome"), g),
        call_ensures(contains, (lowered, "kde"), k),
        call_ensures(contains, (lowered, "cinnamon"), c),
        call_ensures(contains, (lowered, "xfce"), x),
    ensures
        r == (g || k || c || x),
{
}

/// The environment is named by the first of the two variables that is set.
pub proof fn law_environment_names(current: Option<&str>, session: Option<&str>, r: String)
    requires
        call_ensures(detect_desktop, (current, session), r),
    ensures
        current matches Some(s) ==> r@ == s@,
        current is None ==> (session matches Some(s) ==> r@ == s@),
        current is None && session is None ==> r@ == "unknown"@,
{
}

// ── Linux ─────────────────────────────────────────────────────────────────────

/// Installing a shortcut on Linux: the executable is marked, where it is there;
/// the directory of shortcuts is made, and the shortcut written there and
/// marked, and these have to succeed. That the system is told, and that it is
/// copied to a desktop that is known and shown, and marked there, may fail. The
/// shortcut among the applications is what is left.
pub proof fn law_installing_on_linux(
    app: &AppEntry,
    root: &str,
    site: &Site,
    r: Result<Plan, String>,
    lowered: &str,
    file: String,
    session: &str,
    shown: bool,
)
    requires
        site.platform != Platform::Windows,
        call_ensures(install_shortcut, (app, root, site), r),
        lowered@ == lower_case(app.name@),
        call_ensures(desktop_file_name, (lowered,), file),
        session@ == lower_case(site.session@),
        call_ensures(desktop_is_shown, (session,), shown),
    ensures
        app.exec_linux is None ==> (r matches Err(e) && e@ == "Pas d'exec_linux"@),
        app.exec_linux matches Some(exec) ==> (r matches Ok(plan) && {
            let known = site.data_known;
            let apps = seq!["applications"@];
            let menu = seq!["applications"@, file@];
            let s = plan.steps@;
            &&& s.len() == if site.desktop_known && shown {
                7int
            } else {
                5
            }
            &&& s[0].required && (s[0].op matches Op::MarkExecutable { place, if_present }
                && if_present && on_drive(place, seq![exec@]))
            &&& s[1].required && (s[1].op matches Op::CreateDir { place } && in_data(
                place,
                known,
                apps,
            ))
            &&& s[2].required && (s[2].op matches Op::Write { place, content } && in_data(
                place,
                known,
                menu,
            ))
            &&& s[3].required && (s[3].op matches Op::MarkExecutable { place, if_present }
                && !if_present && in_data(place, known, menu))
            &&& !s[4].required && (s[4].op matches Op::RefreshDatabase { place } && in_data(
                place,
                known,
                apps,
            ))
            &&& site.desktop_known && shown ==> {
                &&& !s[5].required && (s[5].op matches Op::Copy { from, to } && in_data(
                    from,
                    known,
                    menu,
                ) && on_desktop(to, seq![file@]))
                &&& !s[6].required && (s[6].op matches Op::MarkExecutable { place, if_present }
                    && !if_present && on_desktop(place, seq![file@]))
            }
            &&& plan.product matches Some(place) && in_data(place, known, menu)
        }),
{
    if app.exec_linux is Some {
        let exec = app.exec_linux->0;
        let want = install_plan(app@, root@, site@)->Ok_0;
        let plan = r->Ok_0;
        let apps = seq!["applications"@];
        let menu = seq!["applications"@, file@];
        assert(plan_of(r) == install_plan(app@, root@, site@));
        assert(plan@ == want);
        let s = plan.steps@;
        assert(plan@.steps.len() == s.len());
        lemma_step(plan, 0);
        lemma_step(plan, 1);
        lemma_step(plan, 2);
        lemma_step(plan, 3);
        lemma_step(plan, 4);
        lemma_parts(s[0].op->MarkExecutable_place, seq![exec@]);
        lemma_parts(s[1].op->CreateDir_place, apps);
        lemma_parts(s[2].op->Write_place, menu);
        lemma_parts(s[3].op->MarkExecutable_place, menu);
        lemma_parts(s[4].op->RefreshDatabase_place, apps);
        lemma_parts(plan.product->0, menu);
        if site.desktop_known && shown {
            lemma_step(plan, 5);
            lemma_step(plan, 6);
            lemma_parts(s[5].op->from, menu);
            lemma_parts(s[5].op->to, seq![file@]);
            lemma_parts(s[6].op->MarkExecutable_place, seq![file@]);
        }
    }
}

/// The content of a shortcut, line by line: its name, its comment, its program
/// and its icon are those of the application, each whatever the others are. The
/// paths lead below the root of the drive; a comment or an icon that the
/// application lacks is left empty.
pub proof fn law_content_of_shortcuts(
    app: &AppEntry,
    root: &str,
    site: &Site,
    r: Result<Plan, String>,
    exec: &str,
    exec_path: String,
    icon: &str,
    icon_path: String,
)
    requires
        site.platform != Platform::Windows,
        call_ensures(install_shortcut, (app, root, site), r),
        app.exec_linux is Some && exec@ == app.exec_linux->0@,
        call_ensures(join_path, (root, exec), exec_path),
        app.icon is Some ==> icon@ == app.icon->0@ && call_ensures(
            join_path,
            (root, icon),
            icon_path,
        ),
        app.icon is None ==> icon_path@.len() == 0,
    ensures
        r is Ok && r->Ok_0.steps@.len() > 2 && (r->Ok_0.steps@[2].op matches Op::Write {
            place,
            content,
        } && content@ == "[Desktop Entry]\n"@ + "Version=1.0\n"@ + "Type=Application\n"@ + ("Name="@
            + app.name@ + "\n"@) + ("Comment="@ + (if app.description is Some {
            app.description->0@
        } else {
            Seq::empty()
        }) + "\n"@) + ("Exec="@ + exec_path@ + "\n"@) + ("Icon="@ + icon_path@ + "\n"@)
            + "Terminal=false\n"@ + "Categories=Utility;\n"@),
{
    reveal_strlit("[Desktop Entry]\nVersion=1.0\nType=Application\nName=");
    reveal_strlit("\nComment=");
    reveal_strlit("\nExec=");
    reveal_strlit("\nIcon=");
    reveal_strlit("\nTerminal=false\nCategories=Utility;\n");
    reveal_strlit("[Desktop Entry]\n");
    reveal_strlit("Version=1.0\n");
    reveal_strlit("Type=Application\n");
    reveal_strlit("Name=");
    reveal_strlit("Comment=");
    reveal_strlit("Exec=");
    reveal_strlit("Icon=");
    reveal_strlit("Terminal=false\n");
    reveal_strlit("Categories=Utility;\n");
    reveal_strlit("\n");
    let plan = r->Ok_0;
    let comment = if app.description is Some {
        app.description->0@
    } else {
        Seq::empty()
    };
    assert(plan_of(r) == install_plan(app@, root@, site@));
    assert(plan@.steps.len() == plan.steps@.len());
    lemma_step(plan, 2);
    assert("[Desktop Entry]\nVersion=1.0\nType=Application\nName="@ =~= "[Desktop Entry]\n"@
        + "Version=1.0\n"@ + "Type=Application\n"@ + "Name="@);
    assert("\nComment="@ =~= "\n"@ + "Comment="@);
    assert("\nExec="@ =~= "\n"@ + "Exec="@);
    assert("\nIcon="@ =~= "\n"@ + "Icon="@);
    assert("\nTerminal=false\nCategories=Utility;\n"@ =~= "\n"@ + "Terminal=false\n"@
        + "Categories=Utility;\n"@);
    if app.icon is None {
        assert(icon_path@ =~= Seq::empty());
    }
    lemma_lines_of_a_shortcut(app.name@, comment, exec_path@, icon_path@);
}

proof fn lemma_lines_of_a_shortcut(
    name: Seq<char>,
    comment: Seq<char>,
    exec: Seq<char>,
    icon: Seq<char>,
)
    requires
        "[Desktop Entry]\nVersion=1.0\nType=Application\nName="@ == "[Desktop Entry]\n"@
            + "Version=1.0\n"@ + "Type=Application\n"@ + "Name="@,
        "\nComment="@ == "\n"@ + "Comment="@,
        "\nExec="@ == "\n"@ + "Exec="@,
        "\nIcon="@ == "\n"@ + "Icon="@,
        "\nTerminal=false\nCategories=Utility;\n"@ == "\n"@ + "Terminal=false\n"@
            + "Categories=Utility;\n"@,
    ensures
        "[Desktop Entry]\nVersion=1.0\nType=Application\nName="@ + name + "\nComment="@ + comment
            + "\nExec="@ + exec + "\nIcon="@ + icon + "\nTerminal=false\nCategories=Utility;\n"@
            == "[Desktop Entry]\n"@ + "Version=1.0\n"@ + "Type=Application\n"@ + ("Name="@ + name
            + "\n"@) + ("Comment="@ + comment + "\n"@) + ("Exec="@ + exec + "\n"@) + ("Icon="@
            + icon + "\n"@) + "Terminal=false\n"@ + "Categories=Utility;\n"@,
{
    broadcast use lemma_add_is_associative;

    let h = "[Desktop Entry]\n"@ + "Version=1.0\n"@ + "Type=Application\n"@;
    assert(h + "Name="@ + name + ("\n"@ + "Comment="@) + comment + ("\n"@ + "Exec="@) + exec + (
    "\n"@ + "Icon="@) + icon + ("\n"@ + "Terminal=false\n"@ + "Categories=Utility;\n"@) == h + (
    "Name="@ + name + "\n"@) + ("Comment="@ + comment + "\n"@) + ("Exec="@ + exec + "\n"@) + (
    "Icon="@ + icon + "\n"@) + "Terminal=false\n"@ + "Categories=Utility;\n"@);
}

/// Texts one behind the other: it does not matter which two are put together
/// first.
broadcast proof fn lemma_add_is_associative(a: Seq<char>, b: Seq<char>, c: Seq<char>)
    ensures
        #[trigger] (a + (b + c)) == a + b + c,
{
    assert(a + (b + c) =~= a + b + c);
}

/// Removing a shortcut on Linux: that among the applications, where their
/// directory is known, which has to succeed, and that on the desktop, where the
/// desktop is known, which may fail; and nothing else.
pub proof fn law_removing_on_linux(
    app: &AppEntry,
    site: &Site,
    r: Result<Plan, String>,
    lowered: &str,
    file: String,
)
    requires
        site.platform != Platform::Windows,
        call_ensures(remove_shortcut, (app, site), r),
        lowered@ == lower_case(app.name@),
        call_ensures(desktop_file_name, (lowered,), file),
    ensures
        r matches Ok(plan) && {
            let s = plan.steps@;
            let k = if site.data_known {
                1int
            } else {
                0
            };
            &&& s.len() == k + if site.desktop_known {
                1int
            } else {
                0
            }
            &&& site.data_known ==> s[0].required && (s[0].op matches Op::Remove { place }
                && in_data(place, true, seq!["applications"@, file@]))
            &&& site.desktop_known ==> !s[k].required && (s[k].op matches Op::Remove { place }
                && on_desktop(place, seq![file@]))
            &&& plan.product is None
        },
{
    let plan = r->Ok_0;
    assert(plan_of(r) == remove_plan(app@, site@));
    let s = plan.steps@;
    assert(plan@.steps.len() == s.len());
    let k = if site.data_known {
        1int
    } else {
        0
    };
    if site.data_known {
        lemma_step(plan, 0);
        lemma_parts(s[0].op->Remove_place, seq!["applications"@, file@]);
    }
    if site.desktop_known {
        lemma_step(plan, k);
        lemma_parts(s[k].op->Remove_place, seq![file@]);
    }
}

// ── Windows ───────────────────────────────────────────────────────────────────

/// Installing a shortcut on Windows: the directory of the start menu is made,
/// and there a link with the name of the application to its program, which runs
/// at the root of the drive; both have to succeed, and the link is what is left.
/// It needs a program, and a directory that is known.
pub proof fn law_installing_on_windows(
    app: &AppEntry,
    root: &str,
    site: &Site,
    r: Result<Plan, String>,
)
    requires
        site.platform == Platform::Windows,
        call_ensures(install_shortcut, (app, root, site), r),
    ensures
        app.exec_windows is None ==> (r matches Err(e) && e@ == "Pas d'exec_windows"@),
        app.exec_windows is Some && !site.data_known ==> (r matches Err(e) && e@
            == "Impossible de trouver le menu Démarrer"@),
        site.data_known ==> (app.exec_windows matches Some(exec) ==> (r matches Ok(plan) && {
            let menu = "Microsoft\\Windows\\Start Menu\\Programs"@;
            let s = plan.steps@;
            &&& s.len() == 2
            &&& s[0].required && (s[0].op matches Op::CreateDir { place } && in_roaming(
                place,
                seq![menu],
            ))
            &&& s[1].required && (s[1].op matches Op::Link { link, target, dir, description }
                && in_roaming(link, seq![menu, app.name@ + ".lnk"@]) && on_drive(
                target,
                seq![exec@],
            ) && on_drive(dir, Seq::empty()) && description@ == if app.description is Some {
                app.description->0@
            } else {
                Seq::empty()
            })
            &&& plan.product matches Some(place) && in_roaming(
                place,
                seq![menu, app.name@ + ".lnk"@],
            )
        })),
{
    assert(plan_of(r) == install_plan(app@, root@, site@));
    if app.exec_windows is Some && site.data_known {
        let exec = app.exec_windows->0;
        let menu = "Microsoft\\Windows\\Start Menu\\Programs"@;
        let plan = r->Ok_0;
        let s = plan.steps@;
        assert(plan@.steps.len() == s.len());
        lemma_step(plan, 0);
        lemma_step(plan, 1);
        lemma_parts(s[0].op->CreateDir_place, seq![menu]);
        lemma_parts(s[1].op->link, seq![menu, app.name@ + ".lnk"@]);
        lemma_parts(s[1].op->target, seq![exec@]);
        lemma_parts(s[1].op->dir, Seq::empty());
        lemma_parts(plan.product->0, seq![menu, app.name@ + ".lnk"@]);
    }
}

/// Removing a shortcut on Windows: the link with the name of the application in
/// the start menu, and nothing else.
pub proof fn law_removing_on_windows(app: &AppEntry, site: &Site, r: Result<Plan, String>)
    requires
        site.platform == Platform::Windows,
        call_ensures(remove_shortcut, (app, site), r),
    ensures
        !site.data_known ==> (r matches Err(e) && e@ == "Menu Démarrer introuvable"@),
        site.data_known ==> (r matches Ok(plan) && plan.steps@.len() == 1
            && plan.steps@[0].required && (plan.steps@[0].op matches Op::Remove { place }
            && in_roaming(
            place,
            seq!["Microsoft\\Windows\\Start Menu\\Programs"@, app.name@ + ".lnk"@],
        )) && plan.product is None),
{
    assert(plan_of(r) == remove_plan(app@, site@));
    if site.data_known {
        let plan = r->Ok_0;
        assert(plan@.steps.len() == plan.steps@.len());
        lemma_step(plan, 0);
        lemma_parts(
            plan.steps@[0].op->Remove_place,
            seq!["Microsoft\\Windows\\Start Menu\\Programs"@, app.name@ + ".lnk"@],
        );
    }
}

/// The script that makes a link names the link, the program, the directory it
/// runs in and the description, each between single quotes, with each single
/// quote in it doubled.
pub proof fn law_link_scripts(
    lnk: &str,
    target: &str,
    dir: &str,
    desc: &str,
    r: String,
    l: String,
    t: String,
    d: String,
    c: String,
)
    requires
        call_ensures(link_script, (lnk, target, dir, desc), r),
        call_ensures(replaced, (lnk, '\'', "''"), l),
        call_ensures(replaced, (target, '\'', "''"), t),
        call_ensures(replaced, (dir, '\'', "''"), d),
        call_ensures(replaced, (desc, '\'', "''"), c),
    ensures
        r@ == "$WS = New-Object -ComObject WScript.Shell\n$SC = $WS.CreateShortcut('"@ + l@
            + "')\n$SC.TargetPath = '"@ + t@ + "'\n$SC.WorkingDirectory = '"@ + d@
            + "'\n$SC.Description = '"@ + c@ + "'\n$SC.Save()"@,
{
}

/// Making a link succeeds exactly where its script does; otherwise it fails with
/// the reason why the script could not be run, or with its own.
pub proof fn law_link_outcomes(status: Result<bool, String>, r: Result<(), String>)
    requires
        call_ensures(link_outcome, (status,), r),
    ensures
        r is Ok <==> status == Ok::<bool, String>(true),
        status == Ok::<bool, String>(false) ==> r->Err_0@ == "Échec du script PowerShell"@,
        status matches Err(e) ==> r->Err_0@ == e@,
{
}

// ── Launching ─────────────────────────────────────────────────────────────────

/// Launching an application runs its executable for the platform, from the
/// drive; but on Windows it is marked before, which may fail. Without an
/// executable for the platform there is nothing to launch.
pub proof fn law_launching(app: &AppEntry, platform: Platform, r: Result<Plan, String>)
    requires
        call_ensures(launch_app, (app, platform), r),
    ensures
        platform == Platform::Windows && app.exec_windows is None || platform != Platform::Windows
            && app.exec_linux is None ==> (r matches Err(e) && e@
            == "Pas d'exécutable pour cet OS"@),
        platform == Platform::Windows ==> (app.exec_windows matches Some(exec) ==> (r matches Ok(
            plan,
        ) && plan.steps@.len() == 1 && runs(plan.steps@[0], exec@))),
        platform != Platform::Windows ==> (app.exec_linux matches Some(exec) ==> (r matches Ok(
            plan,
        ) && plan.steps@.len() == 2 && marks(plan.steps@[0], exec@) && runs(
            plan.steps@[1],
            exec@,
        ))),
{
    assert(plan_of(r) == launch_plan(app@, platform));
    if r is Ok {
        let plan = r->Ok_0;
        let s = plan.steps@;
        assert(plan@.steps.len() == s.len());
        if platform == Platform::Windows {
            lemma_step(plan, 0);
            lemma_parts(s[0].op->Launch_place, seq![app.exec_windows->0@]);
        } else {
            lemma_step(plan, 0);
            lemma_step(plan, 1);
            lemma_parts(s[0].op->MarkExecutable_place, seq![app.exec_linux->0@]);
            lemma_parts(s[1].op->Launch_place, seq![app.exec_linux->0@]);
        }
    }
}

/// The step runs that program of the drive, and has to succeed.
pub open spec fn runs(step: Step, program: Seq<char>) -> bool {
    step.required && (step.op matches Op::Launch { place } && on_drive(place, seq![program]))
}

/// The step marks that file of the drive as executable, and may fail.
pub open spec fn marks(step: Step, file: Seq<char>) -> bool {
    !step.required && (step.op matches Op::MarkExecutable { place, if_present } && !if_present
        && on_drive(place, seq![file]))
}

/// A setup script is marked as executable before it is run, but on Windows.
pub proof fn law_scripts_are_made_ready(script: &str, platform: Platform, r: Plan)
    requires
        call_ensures(prepare_script, (script, platform), r),
    ensures
        platform == Platform::Windows ==> r.steps@.len() == 0,
        platform != Platform::Windows ==> r.steps@.len() == 1 && marks(r.steps@[0], script@),
{
    assert(r@ == script_plan(script@, platform));
    assert(r@.steps.len() == r.steps@.len());
    if platform != Platform::Windows {
        lemma_step(r, 0);
        lemma_parts(r.steps@[0].op->MarkExecutable_place, seq![script@]);
    }
}

// ── Carrying out ──────────────────────────────────────────────────────────────

/// Carrying a plan out begins with its first step, and has not failed.
pub proof fn law_plans_begin(plan: Plan, r: Run)
    requires
        call_ensures(Run::new, (plan,), r),
    ensures
        r.plan@ == plan@ && r.next == 0 && r.failure is None,
{
}

/// There is a step to be done as long as the run has not failed and a step is
/// left, and it is the one that the run stands at.
pub proof fn law_steps_in_turn(run: &Run, r: Option<&Step>)
    requires
        call_ensures(Run::current, (run,), r),
    ensures
        r is Some <==> run.failure is None && run.next < run.plan.steps@.len(),
        r matches Some(step) ==> step@ == run.plan.steps@[run.next as int]@ && step.required
            == run.plan.steps@[run.next as int].required,
{
    assert(run@.plan.steps.len() == run.plan.steps@.len());
    assert(is_running(run@) <==> run.failure is None && run.next < run.plan.steps@.len());
    if is_running(run@) {
        lemma_step(run.plan, run.next as int);
    }
}

/// A step that failed ends the run with its reason where it is required; a step
/// that did not fail, or that may, leads to the next.
pub proof fn law_results_of_steps(run: &mut Run, result: Result<(), String>)
    requires
        old(run).failure is None && old(run).next < old(run).plan.steps@.len(),
        call_ensures(Run::report, (run, result), ()),
    ensures
        ({
            let required = old(run).plan.steps@[old(run).next as int].required;
            &&& result is Err && required ==> final(run).failure is Some
                && final(run).failure->0@ == result->Err_0@ && final(run).next == old(run).next
            &&& !(result is Err && required) ==> final(run).failure is None && final(run).next
                == old(run).next + 1
        }),
        final(run).plan@ == old(run).plan@,
{
    lemma_step(old(run).plan, old(run).next as int);
}

/// A run has failed exactly where it holds a reason, and gives that.
pub proof fn law_outcomes(run: &Run, r: Result<(), String>)
    requires
        call_ensures(Run::outcome, (run,), r),
    ensures
        r is Err <==> run.failure is Some,
        run.failure matches Some(e) ==> r->Err_0@ == e@,
{
}

/// A step is added behind the others, and the two ways to add one differ in
/// whether it has to succeed.
pub proof fn law_adding_steps(a: &mut Vec<Step>, b: &mut Vec<Step>, op: Op, other: Op)
    requires
        call_ensures(push_must, (a, op), ()),
        call_ensures(push_may, (b, other), ()),
    ensures
        final(a)@.len() == old(a)@.len() + 1 && final(a)@.last().required,
        final(b)@.len() == old(b)@.len() + 1 && !final(b)@.last().required,
        final(a)@.last().op@ == op@ && final(b)@.last().op@ == other@,
        forall|i: int| 0 <= i < old(a)@.len() ==> (#[trigger] final(a)@[i])@ == old(a)@[i]@,
{
    lemma_added(old(a)@, final(a)@, op@, true);
    lemma_added(old(b)@, final(b)@, other@, false);
}

proof fn lemma_added(a: Seq<Step>, b: Seq<Step>, op: OpModel, required: bool)
    requires
        crate::plan::step_models(b) == crate::plan::step_models(a).push(StepModel { op, required }),
    ensures
        b.len() == a.len() + 1,
        b.last().op@ == op && b.last().required == required,
        forall|i: int| 0 <= i < a.len() ==> (#[trigger] b[i])@ == a[i]@,
{
    let x = crate::plan::step_models(a);
    let y = crate::plan::step_models(b);
    assert(x.len() == a.len() && y.len() == b.len());
    assert(y.last() == b.last()@);
    assert forall|i: int| 0 <= i < a.len() implies (#[trigger] b[i])@ == a[i]@ by {
        assert(y[i] == b[i]@);
        assert(x[i] == a[i]@);
    }
}

} // verus!
