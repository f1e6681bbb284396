//! Shortcuts: what is done to install one, to remove it, and to launch an
//! application.
//!
//! On Linux a shortcut is a `.desktop` file among the user's applications, with
//! a copy on the desktop of the environments that show one. On Windows it is a
//! link in the start menu.
use vstd::prelude::*;

use crate::catalog::{exec_of, AppEntry, AppModel, Platform};
use crate::plan::{
    below, may, must, place_itself, place_of, place_of_two, push_may, push_must, Folder,
    FolderModel, Op, OpModel, Place, PlaceModel, Plan, PlanModel, Step, StepModel,
};
use crate::scan::{contains, join_path, replaced};
use crate::text::{has_text, lower_case, path_below, replace_char, to_lower_case};

verus! {

/// What is known of the system.
#[derive(Debug)]
pub struct Site {
    pub platform: Platform,
    /// Whether the directory for the user's data is known: on Linux the local
    /// one, on Windows the roaming one.
    pub data_known: bool,
    /// Whether the user's desktop is known.
    pub desktop_known: bool,
    /// The name of the desktop environment.
    pub session: String,
}

#[verifier::ext_equal]
pub struct SiteModel {
    pub platform: Platform,
    pub data_known: bool,
    pub desktop_known: bool,
    pub session: Seq<char>,
}

impl View for Site {
    type V = SiteModel;

    open spec fn view(&self) -> SiteModel {
        SiteModel {
            platform: self.platform,
            data_known: self.data_known,
            desktop_known: self.desktop_known,
            session: self.session@,
        }
    }
}

/// The plan, or the reason why there is none.
pub open spec fn plan_of(r: Result<Plan, String>) -> Result<PlanModel, Seq<char>> {
    match r {
        Ok(plan) => Ok(plan@),
        Err(e) => Err(e@),
    }
}

/// The text that there is, or nothing.
pub open spec fn or_empty(s: Option<Seq<char>>) -> Seq<char> {
    match s {
        Some(s) => s,
        None => Seq::empty(),
    }
}

// ── Linux ─────────────────────────────────────────────────────────────────────

/// The name of the shortcut of an application whose name, in lower case, is
/// `lowered`.
pub open spec fn desktop_file(lowered: Seq<char>) -> Seq<char> {
    replace_char(lowered, ' ', "_"@) + ".desktop"@
}

/// The environment whose name, in lower case, is `lowered` shows what is on the
/// desktop.
pub open spec fn shows_desktop(lowered: Seq<char>) -> bool {
    ||| has_text(lowered, "gnome"@)
    ||| has_text(lowered, "kde"@)
    ||| has_text(lowered, "cinnamon"@)
    ||| has_text(lowered, "xfce"@)
}

/// What the shortcut holds, for an executable and an icon at these paths.
pub open spec fn desktop_entry(
    name: Seq<char>,
    comment: Seq<char>,
    exec: Seq<char>,
    icon: Seq<char>,
) -> Seq<char> {
    "[Desktop Entry]\nVersion=1.0\nType=Application\nName="@ + name + "\nComment="@ + comment
        + "\nExec="@ + exec + "\nIcon="@ + icon + "\nTerminal=false\nCategories=Utility;\n"@
}

/// What the shortcut of an application on the drive at `root` holds.
pub open spec fn entry_of(app: AppModel, root: Seq<char>, exec: Seq<char>) -> Seq<char> {
    desktop_entry(
        app.name,
        or_empty(app.description),
        path_below(root, exec),
        match app.icon {
            Some(icon) => path_below(root, icon),
            None => Seq::empty(),
        },
    )
}

/// Where the user's data is, or is taken to be where that is not known.
pub open spec fn data_folder(data_known: bool) -> FolderModel {
    if data_known {
        FolderModel::LocalData
    } else {
        FolderModel::At("~/.local/share"@)
    }
}

/// The directory of the user's shortcuts.
pub open spec fn applications(data_known: bool) -> PlaceModel {
    below(data_folder(data_known), seq!["applications"@])
}

/// A shortcut in that directory.
pub open spec fn menu_file(data_known: bool, file: Seq<char>) -> PlaceModel {
    below(data_folder(data_known), seq!["applications"@, file])
}

/// A shortcut on the desktop.
pub open spec fn desktop_copy(file: Seq<char>) -> PlaceModel {
    below(FolderModel::Desktop, seq![file])
}

/// Installing the shortcut `file` of the application on the drive at `root`;
/// `copy` tells whether it is also copied to the desktop.
pub open spec fn linux_install(
    app: AppModel,
    root: Seq<char>,
    data_known: bool,
    file: Seq<char>,
    copy: bool,
) -> Result<PlanModel, Seq<char>> {
    match app.exec_linux {
        None => Err("Pas d'exec_linux"@),
        Some(exec) => {
            let menu = menu_file(data_known, file);
            let dest = desktop_copy(file);
            let menu_steps = seq![
                must(
                    OpModel::MarkExecutable {
                        place: below(FolderModel::UsbRoot, seq![exec]),
                        if_present: true,
                    },
                ),
                must(OpModel::CreateDir { place: applications(data_known) }),
                must(OpModel::Write { place: menu, content: entry_of(app, root, exec) }),
                must(OpModel::MarkExecutable { place: menu, if_present: false }),
                may(OpModel::RefreshDatabase { place: applications(data_known) }),
            ];
            let desktop_steps = if copy {
                seq![
                    may(OpModel::Copy { from: menu, to: dest }),
                    may(OpModel::MarkExecutable { place: dest, if_present: false }),
                ]
            } else {
                Seq::empty()
            };
            Ok(PlanModel { steps: menu_steps + desktop_steps, product: Some(menu) })
        },
    }
}

/// Removing the shortcut `file` from where it may be.
pub open spec fn linux_remove(data_known: bool, desktop_known: bool, file: Seq<char>) -> PlanModel {
    let menu_steps = if data_known {
        seq![must(OpModel::Remove { place: menu_file(true, file) })]
    } else {
        Seq::empty()
    };
    let desktop_steps = if desktop_known {
        seq![may(OpModel::Remove { place: desktop_copy(file) })]
    } else {
        Seq::empty()
    };
    PlanModel { steps: menu_steps + desktop_steps, product: None }
}

/// The name of the shortcut of an application whose name, in lower case, is
/// `lowered`: spaces become underscores.
pub fn desktop_file_name(lowered: &str) -> (r: String)
    ensures
        r@ == desktop_file(lowered@),
{
    replaced(lowered, ' ', "_").concat(".desktop")
}

/// Whether the environment whose name, in lower case, is `lowered` shows what
/// is on the desktop: GNOME, KDE, Cinnamon and XFCE do.
pub fn desktop_is_shown(lowered: &str) -> (r: bool)
    ensures
        r == shows_desktop(lowered@),
{
    contains(lowered, "gnome") || contains(lowered, "kde") || contains(lowered, "cinnamon")
        || contains(lowered, "xfce")
}

/// The name of the desktop environment: the variable `XDG_CURRENT_DESKTOP`, or
/// else `DESKTOP_SESSION`.
pub fn detect_desktop(current: Option<&str>, session: Option<&str>) -> (r: String)
    ensures
        r@ == match (current, session) {
            (Some(s), _) => s@,
            (None, Some(s)) => s@,
            (None, None) => "unknown"@,
        },
{
    match current {
        Some(s) => s.to_owned(),
        None => match session {
            Some(s) => s.to_owned(),
            None => "unknown".to_owned(),
        },
    }
}

fn data_folder_of(data_known: bool) -> (r: Folder)
    ensures
        r@ == data_folder(data_known),
{
    if data_known {
        Folder::LocalData
    } else {
        Folder::At("~/.local/share".to_owned())
    }
}

fn menu_place(data_known: bool, file: &str) -> (r: Place)
    ensures
        r@ == menu_file(data_known, file@),
{
    place_of_two(data_folder_of(data_known), "applications", file)
}

fn entry_text(app: &AppEntry, root: &str, exec: &str) -> (r: String)
    ensures
        r@ == entry_of(app@, root@, exec@),
{
    let comment: String = match &app.description {
        Some(d) => d.clone(),
        None => String::new(),
    };
    let icon: String = match &app.icon {
        Some(i) => join_path(root, i.as_str()),
        None => String::new(),
    };
    let exec_path = join_path(root, exec);
    "[Desktop Entry]\nVersion=1.0\nType=Application\nName=".to_owned().concat(
        app.name.as_str(),
    ).concat("\nComment=").concat(comment.as_str()).concat("\nExec=").concat(
        exec_path.as_str(),
    ).concat("\nIcon=").concat(icon.as_str()).concat("\nTerminal=false\nCategories=Utility;\n")
}

/// How the shortcut `file` of an application on the drive at `root` is
/// installed on Linux; `copy` tells whether it is also copied to the desktop.
pub fn install_shortcut_linux(
    app: &AppEntry,
    root: &str,
    data_known: bool,
    file: &str,
    copy: bool,
) -> (r: Result<Plan, String>)
    ensures
        plan_of(r) == linux_install(app@, root@, data_known, file@, copy),
{
    match &app.exec_linux {
        None => Err("Pas d'exec_linux".to_owned()),
        Some(exec) => {
            let mut steps: Vec<Step> = Vec::new();
            push_must(
                &mut steps,
                Op::MarkExecutable {
                    place: place_of(Folder::UsbRoot, exec.as_str()),
                    if_present: true,
                },
            );
            push_must(
                &mut steps,
                Op::CreateDir { place: place_of(data_folder_of(data_known), "applications") },
            );
            push_must(
                &mut steps,
                Op::Write {
                    place: menu_place(data_known, file),
                    content: entry_text(app, root, exec.as_str()),
                },
            );
            push_must(
                &mut steps,
                Op::MarkExecutable { place: menu_place(data_known, file), if_present: false },
            );
            push_may(
                &mut steps,
                Op::RefreshDatabase { place: place_of(data_folder_of(data_known), "applications") },
            );
            if copy {
                push_may(
                    &mut steps,
                    Op::Copy {
                        from: menu_place(data_known, file),
                        to: place_of(Folder::Desktop, file),
                    },
                );
                push_may(
                    &mut steps,
                    Op::MarkExecutable {
                        place: place_of(Folder::Desktop, file),
                        if_present: false,
                    },
                );
            }
            let product = Some(menu_place(data_known, file));
            let plan = Plan { steps, product };
            proof {
                let want = linux_install(app@, root@, data_known, file@, copy)->Ok_0;
                assert(plan@.steps =~= want.steps);
            }
            Ok(plan)
        },
    }
}

/// How the shortcut `file` is removed on Linux.
pub fn remove_shortcut_linux(data_known: bool, desktop_known: bool, file: &str) -> (r: Plan)
    ensures
        r@ == linux_remove(data_known, desktop_known, file@),
{
    let mut steps: Vec<Step> = Vec::new();
    if data_known {
        push_must(&mut steps, Op::Remove { place: menu_place(true, file) });
    }
    if desktop_known {
        push_may(&mut steps, Op::Remove { place: place_of(Folder::Desktop, file) });
    }
    let r = Plan { steps, product: None };
    assert(r@.steps =~= linux_remove(data_known, desktop_known, file@).steps);
    r
}

// ── Windows ───────────────────────────────────────────────────────────────────

/// The directory of the start menu.
pub open spec fn start_menu() -> PlaceModel {
    below(FolderModel::RoamingData, seq!["Microsoft\\Windows\\Start Menu\\Programs"@])
}

/// The link of an application there.
pub open spec fn menu_link(name: Seq<char>) -> PlaceModel {
    below(
        FolderModel::RoamingData,
        seq!["Microsoft\\Windows\\Start Menu\\Programs"@, name + ".lnk"@],
    )
}

/// Installing the link of an application, which is to run at the root of the
/// drive.
pub open spec fn windows_install(app: AppModel, data_known: bool) -> Result<PlanModel, Seq<char>> {
    match app.exec_windows {
        None => Err("Pas d'exec_windows"@),
        Some(exec) => if !data_known {
            Err("Impossible de trouver le menu Démarrer"@)
        } else {
            Ok(
                PlanModel {
                    steps: seq![
                        must(OpModel::CreateDir { place: start_menu() }),
                        must(
                            OpModel::Link {
                                link: menu_link(app.name),
                                target: below(FolderModel::UsbRoot, seq![exec]),
                                dir: below(FolderModel::UsbRoot, Seq::empty()),
                                description: or_empty(app.description),
                            },
                        ),
                    ],
                    product: Some(menu_link(app.name)),
                },
            )
        },
    }
}

/// Removing the link of an application.
pub open spec fn windows_remove(app: AppModel, data_known: bool) -> Result<PlanModel, Seq<char>> {
    if !data_known {
        Err("Menu Démarrer introuvable"@)
    } else {
        Ok(
            PlanModel {
                steps: seq![must(OpModel::Remove { place: menu_link(app.name) })],
                product: None,
            },
        )
    }
}

/// A text between single quotes of PowerShell: each quote in it is doubled.
pub open spec fn quoted(s: Seq<char>) -> Seq<char> {
    replace_char(s, '\'', "''"@)
}

/// The script that creates a link at `lnk` to the program `target`, which is
/// to run in `dir`.
pub open spec fn link_script_text(
    lnk: Seq<char>,
    target: Seq<char>,
    dir: Seq<char>,
    desc: Seq<char>,
) -> Seq<char> {
    "$WS = New-Object -ComObject WScript.Shell\n$SC = $WS.CreateShortcut('"@ + quoted(lnk)
        + "')\n$SC.TargetPath = '"@ + quoted(target) + "'\n$SC.WorkingDirectory = '"@ + quoted(dir)
        + "'\n$SC.Description = '"@ + quoted(desc) + "'\n$SC.Save()"@
}

fn link_place(name: &str) -> (r: Place)
    ensures
        r@ == menu_link(name@),
{
    let file = name.to_owned().concat(".lnk");
    place_of_two(
        Folder::RoamingData,
        "Microsoft\\Windows\\Start Menu\\Programs",
        file.as_str(),
    )
}

/// How the link of an application is installed on Windows.
pub fn install_shortcut_windows(app: &AppEntry, data_known: bool) -> (r: Result<Plan, String>)
    ensures
        plan_of(r) == windows_install(app@, data_known),
{
    match &app.exec_windows {
        None => Err("Pas d'exec_windows".to_owned()),
        Some(exec) => {
            if !data_known {
                return Err("Impossible de trouver le menu Démarrer".to_owned());
            }
            let mut steps: Vec<Step> = Vec::new();
            push_must(
                &mut steps,
                Op::CreateDir {
                    place: place_of(
                        Folder::RoamingData,
                        "Microsoft\\Windows\\Start Menu\\Programs",
                    ),
                },
            );
            let description: String = match &app.description {
                Some(d) => d.clone(),
                None => String::new(),
            };
            push_must(
                &mut steps,
                Op::Link {
                    link: link_place(app.name.as_str()),
                    target: place_of(Folder::UsbRoot, exec.as_str()),
                    dir: place_itself(Folder::UsbRoot),
                    description,
                },
            );
            let product = Some(link_place(app.name.as_str()));
            let plan = Plan { steps, product };
            assert(plan@.steps =~= windows_install(app@, data_known)->Ok_0.steps);
            Ok(plan)
        },
    }
}

/// How the link of an application is removed on Windows.
pub fn remove_shortcut_windows(app: &AppEntry, data_known: bool) -> (r: Result<Plan, String>)
    ensures
        plan_of(r) == windows_remove(app@, data_known),
{
    if !data_known {
        return Err("Menu Démarrer introuvable".to_owned());
    }
    let mut steps: Vec<Step> = Vec::new();
    push_must(&mut steps, Op::Remove { place: link_place(app.name.as_str()) });
    let plan = Plan { steps, product: None };
    assert(plan@.steps =~= windows_remove(app@, data_known)->Ok_0.steps);
    Ok(plan)
}

/// The script that creates a link.
pub fn link_script(lnk: &str, target: &str, dir: &str, desc: &str) -> (r: String)
    ensures
        r@ == link_script_text(lnk@, target@, dir@, desc@),
{
    let lnk = replaced(lnk, '\'', "''");
    let target = replaced(target, '\'', "''");
    let dir = replaced(dir, '\'', "''");
    let desc = replaced(desc, '\'', "''");
    "$WS = New-Object -ComObject WScript.Shell\n$SC = $WS.CreateShortcut('".to_owned().concat(
        lnk.as_str(),
    ).concat("')\n$SC.TargetPath = '").concat(target.as_str()).concat(
        "'\n$SC.WorkingDirectory = '",
    ).concat(dir.as_str()).concat("'\n$SC.Description = '").concat(desc.as_str()).concat(
        "'\n$SC.Save()",
    )
}

/// How creating a link ended: `status` tells whether the script succeeded, or
/// why it could not be run.
pub fn link_outcome(status: Result<bool, String>) -> (r: Result<(), String>)
    ensures
        match status {
            Ok(true) => r is Ok,
            Ok(false) => r is Err && r->Err_0@ == "Échec du script PowerShell"@,
            Err(e) => r is Err && r->Err_0@ == e@,
        },
{
    match status {
        Ok(true) => Ok(()),
        Ok(false) => Err("Échec du script PowerShell".to_owned()),
        Err(e) => Err(e),
    }
}

// ── Either platform ───────────────────────────────────────────────────────────

/// Installing the shortcut of the application on the drive at `root`.
pub open spec fn install_plan(app: AppModel, root: Seq<char>, site: SiteModel) -> Result<
    PlanModel,
    Seq<char>,
> {
    match site.platform {
        Platform::Linux | Platform::Unix => linux_install(
            app,
            root,
            site.data_known,
            desktop_file(lower_case(app.name)),
            site.desktop_known && shows_desktop(lower_case(site.session)),
        ),
        Platform::Windows => windows_install(app, site.data_known),
    }
}

/// Removing the shortcut of the application.
pub open spec fn remove_plan(app: AppModel, site: SiteModel) -> Result<PlanModel, Seq<char>> {
    match site.platform {
        Platform::Linux | Platform::Unix => Ok(
            linux_remove(
                site.data_known,
                site.desktop_known,
                desktop_file(lower_case(app.name)),
            ),
        ),
        Platform::Windows => windows_remove(app, site.data_known),
    }
}

/// Launching the application.
pub open spec fn launch_plan(app: AppModel, platform: Platform) -> Result<PlanModel, Seq<char>> {
    match exec_of(app, platform) {
        None => Err("Pas d'exécutable pour cet OS"@),
        Some(exec) => {
            let place = below(FolderModel::UsbRoot, seq![exec]);
            Ok(
                PlanModel {
                    steps: match platform {
                        Platform::Linux | Platform::Unix => seq![
                            may(OpModel::MarkExecutable { place, if_present: false }),
                            must(OpModel::Launch { place }),
                        ],
                        Platform::Windows => seq![must(OpModel::Launch { place })],
                    },
                    product: None,
                },
            )
        },
    }
}

/// How the shortcut of an application on the drive at `root` is installed.
pub fn install_shortcut(app: &AppEntry, root: &str, site: &Site) -> (r: Result<Plan, String>)
    ensures
        plan_of(r) == install_plan(app@, root@, site@),
{
    match site.platform {
        Platform::Linux | Platform::Unix => {
            let lowered = to_lower_case(app.name.as_str());
            let file = desktop_file_name(lowered.as_str());
            let session = to_lower_case(site.session.as_str());
            let copy: bool = site.desktop_known && desktop_is_shown(session.as_str());
            install_shortcut_linux(app, root, site.data_known, file.as_str(), copy)
        },
        Platform::Windows => install_shortcut_windows(app, site.data_known),
    }
}

/// How the shortcut of an application is removed.
pub fn remove_shortcut(app: &AppEntry, site: &Site) -> (r: Result<Plan, String>)
    ensures
        plan_of(r) == remove_plan(app@, site@),
{
    match site.platform {
        Platform::Linux | Platform::Unix => {
            let lowered = to_lower_case(app.name.as_str());
            let file = desktop_file_name(lowered.as_str());
            Ok(remove_shortcut_linux(site.data_known, site.desktop_known, file.as_str()))
        },
        Platform::Windows => remove_shortcut_windows(app, site.data_known),
    }
}

/// How an application is launched.
pub fn launch_app(app: &AppEntry, platform: Platform) -> (r: Result<Plan, String>)
    ensures
        plan_of(r) == launch_plan(app@, platform),
{
    match app.exec_path(platform) {
        None => Err("Pas d'exécutable pour cet OS".to_owned()),
        Some(exec) => {
            let mut steps: Vec<Step> = Vec::new();
            match platform {
                Platform::Linux | Platform::Unix => {
                    push_may(
                        &mut steps,
                        Op::MarkExecutable {
                            place: place_of(Folder::UsbRoot, exec),
                            if_present: false,
                        },
                    );
                },
                Platform::Windows => {},
            }
            push_must(&mut steps, Op::Launch { place: place_of(Folder::UsbRoot, exec) });
            let plan = Plan { steps, product: None };
            assert(plan@.steps =~= launch_plan(app@, platform)->Ok_0.steps);
            Ok(plan)
        },
    }
}

/// Making the setup script of an application ready to be run.
pub open spec fn script_plan(script: Seq<char>, platform: Platform) -> PlanModel {
    PlanModel {
        steps: match platform {
            Platform::Linux | Platform::Unix => seq![
                may(
                    OpModel::MarkExecutable {
                        place: below(FolderModel::UsbRoot, seq![script]),
                        if_present: false,
                    },
                ),
            ],
            Platform::Windows => Seq::empty(),
        },
        product: None,
    }
}

/// How the setup script of an application is made ready to be run.
pub fn prepare_script(script: &str, platform: Platform) -> (r: Plan)
    ensures
        r@ == script_plan(script@, platform),
{
    let mut steps: Vec<Step> = Vec::new();
    match platform {
        Platform::Linux | Platform::Unix => {
            push_may(
                &mut steps,
                Op::MarkExecutable { place: place_of(Folder::UsbRoot, script), if_present: false },
            );
        },
        Platform::Windows => {},
    }
    let r = Plan { steps, product: None };
    assert(r@.steps =~= script_plan(script@, platform).steps);
    r
}

// ── Laws ──────────────────────────────────────────────────────────────────────

/// The file that a step brings into being, if it brings one.
pub open spec fn created(step: StepModel) -> Option<PlaceModel> {
    match step.op {
        OpModel::Write { place, content } => Some(place),
        OpModel::Copy { from, to } => Some(to),
        OpModel::Link { link, .. } => Some(link),
        _ => None,
    }
}

/// The file that a step removes, if it removes one.
pub open spec fn removed(step: StepModel) -> Option<PlaceModel> {
    match step.op {
        OpModel::Remove { place } => Some(place),
        _ => None,
    }
}

/// Some step of the plan removes the file.
pub open spec fn removes(plan: PlanModel, place: PlaceModel) -> bool {
    exists|k: int|
        0 <= k < plan.steps.len() && #[trigger] removed(plan.steps[k]) == Some(place)
}

/// Removing a shortcut undoes its installation: each file that installing it
/// creates is one that removing it removes, on a system where the directory for
/// the user's data is known.
pub proof fn law_remove_undoes_install(app: AppModel, root: Seq<char>, site: SiteModel, i: int)
    requires
        site.data_known,
        install_plan(app, root, site) is Ok,
        0 <= i < install_plan(app, root, site)->Ok_0.steps.len(),
    ensures
        remove_plan(app, site) is Ok,
        created(install_plan(app, root, site)->Ok_0.steps[i]) matches Some(place) ==> removes(
            remove_plan(app, site)->Ok_0,
            place,
        ),
{
    let out = remove_plan(app, site)->Ok_0;
    let step = install_plan(app, root, site)->Ok_0.steps[i];
    match site.platform {
        Platform::Linux | Platform::Unix => {
            let file = desktop_file(lower_case(app.name));
            assert(removed(out.steps[0]) == Some(menu_file(true, file)));
            if site.desktop_known {
                assert(removed(out.steps[1]) == Some(desktop_copy(file)));
            }
            assert(i != 2 && i != 5 ==> created(step) is None);
        },
        Platform::Windows => {
            assert(removed(out.steps[0]) == Some(menu_link(app.name)));
        },
    }
}

/// Removing a shortcut does nothing but remove files, and none but its own: the
/// shortcut in the menu and the copy on the desktop.
pub proof fn law_remove_only_removes(app: AppModel, site: SiteModel, k: int)
    requires
        remove_plan(app, site) is Ok,
        0 <= k < remove_plan(app, site)->Ok_0.steps.len(),
    ensures
        removed(remove_plan(app, site)->Ok_0.steps[k]) matches Some(place) && match site.platform {
            Platform::Linux | Platform::Unix => place == menu_file(true, desktop_file(lower_case(app.name)))
                || place == desktop_copy(desktop_file(lower_case(app.name))),
            Platform::Windows => place == menu_link(app.name),
        },
{
}

/// What an installation leaves is a file that it creates.
pub proof fn law_install_creates_its_product(app: AppModel, root: Seq<char>, site: SiteModel)
    requires
        install_plan(app, root, site) is Ok,
    ensures
        ({
            let plan = install_plan(app, root, site)->Ok_0;
            &&& plan.product is Some
            &&& exists|i: int|
                0 <= i < plan.steps.len() && #[trigger] created(plan.steps[i]) == plan.product
                    && plan.steps[i].required
        }),
{
    let plan = install_plan(app, root, site)->Ok_0;
    match site.platform {
        Platform::Linux | Platform::Unix => {
            assert(created(plan.steps[2]) == plan.product);
        },
        Platform::Windows => {
            assert(created(plan.steps[1]) == plan.product);
        },
    }
}

/// An application can be launched on a platform exactly where it has an
/// executable for it, and a shortcut can be installed nowhere else.
pub proof fn law_needs_executable(app: AppModel, root: Seq<char>, site: SiteModel)
    ensures
        launch_plan(app, site.platform) is Ok <==> exec_of(app, site.platform) is Some,
        install_plan(app, root, site) is Ok ==> exec_of(app, site.platform) is Some,
{
}

/// A shortcut that is installed on Linux can be run by everybody, and the
/// system is told of it: after the step that writes it come one that marks it,
/// which has to succeed, and one that refreshes its directory.
pub proof fn law_installed_shortcut_is_ready(app: AppModel, root: Seq<char>, site: SiteModel)
    requires
        site.platform != Platform::Windows,
        install_plan(app, root, site) is Ok,
    ensures
        ({
            let plan = install_plan(app, root, site)->Ok_0;
            let menu = plan.product->0;
            exists|i: int, j: int, k: int|
                0 <= i < j < k < plan.steps.len() && #[trigger] created(plan.steps[i]) == Some(menu)
                    && #[trigger] plan.steps[j] == must(
                    OpModel::MarkExecutable { place: menu, if_present: false },
                ) && #[trigger] plan.steps[k].op == (OpModel::RefreshDatabase {
                    place: applications(site.data_known),
                })
        }),
{
    let plan = install_plan(app, root, site)->Ok_0;
    let menu = plan.product->0;
    assert(created(plan.steps[2]) == Some(menu));
    assert(plan.steps[3] == must(OpModel::MarkExecutable { place: menu, if_present: false }));
    assert(plan.steps[4].op == (OpModel::RefreshDatabase {
        place: applications(site.data_known),
    }));
}

/// A shortcut that is installed is copied to the desktop exactly on Linux, where
/// the desktop is known and the environment is one that shows it.
pub proof fn law_desktop_copy(app: AppModel, root: Seq<char>, site: SiteModel)
    requires
        install_plan(app, root, site) is Ok,
    ensures
        (exists|i: int|
            0 <= i < install_plan(app, root, site)->Ok_0.steps.len() && (
            #[trigger] install_plan(app, root, site)->Ok_0.steps[i]).op is Copy) <==> (
        site.platform != Platform::Windows && site.desktop_known && shows_desktop(
            lower_case(site.session),
        )),
{
    let plan = install_plan(app, root, site)->Ok_0;
    if site.platform != Platform::Windows && site.desktop_known && shows_desktop(
        lower_case(site.session),
    ) {
        assert(plan.steps[5].op is Copy);
    }
}

/// What single quotes of PowerShell hold for a text between them: two quotes
/// stand for one.
pub open spec fn unquoted(s: Seq<char>) -> Seq<char>
    decreases s.len(),
{
    if s.len() == 0 {
        s
    } else if s.len() >= 2 && s.last() == '\'' && s[s.len() - 2] == '\'' {
        unquoted(s.take(s.len() - 2)).push('\'')
    } else {
        unquoted(s.drop_last()).push(s.last())
    }
}

/// PowerShell reads each text of the script as what it was.
pub proof fn law_quoted_reads_back(s: Seq<char>)
    ensures
        unquoted(quoted(s)) == s,
    decreases s.len(),
{
    reveal_strlit("''");
    if s.len() > 0 {
        let init = s.drop_last();
        law_quoted_reads_back(init);
        let q = quoted(s);
        assert(s =~= init.push(s.last()));
        if s.last() == '\'' {
            assert(q.take(q.len() - 2) =~= quoted(init));
        } else {
            assert(q.drop_last() =~= quoted(init));
        }
    }
}

/// There is no space in the name of a `.desktop` file.
pub proof fn law_desktop_file_has_no_space(lowered: Seq<char>, i: int)
    requires
        0 <= i < desktop_file(lowered).len(),
    ensures
        desktop_file(lowered)[i] != ' ',
{
    reveal_strlit("_");
    reveal_strlit(".desktop");
    let r = replace_char(lowered, ' ', "_"@);
    if i < r.len() {
        lemma_no_space_left(lowered, i);
    } else {
        assert(desktop_file(lowered)[i] == ".desktop"@[i - r.len()]);
    }
}

proof fn lemma_no_space_left(s: Seq<char>, i: int)
    requires
        0 <= i < replace_char(s, ' ', "_"@).len(),
    ensures
        replace_char(s, ' ', "_"@)[i] != ' ',
    decreases s.len(),
{
    reveal_strlit("_");
    let head = replace_char(s.drop_last(), ' ', "_"@);
    if i < head.len() {
        lemma_no_space_left(s.drop_last(), i);
    }
}

} // verus!
