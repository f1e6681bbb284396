use baluchon::catalog::{load_apps, open_download_url, AppEntry, LoadFailure, Platform};
use baluchon::plan::{Folder, Op, Place, Plan, Run};
use baluchon::shortcut::{
    desktop_file_name, desktop_is_shown, detect_desktop, install_shortcut, launch_app,
    link_outcome, link_script, prepare_script, remove_shortcut, Site,
};

fn mon_app() -> AppEntry {
    AppEntry {
        name: "Mon App ÉTÉ".to_string(),
        exec_linux: Some("monapp/monapp".to_string()),
        exec_windows: Some("monapp/monapp.exe".to_string()),
        icon: Some("monapp/assets/icon.png".to_string()),
        description: Some("Description courte".to_string()),
        download_url: Some("https://exemple.fr/monapp".to_string()),
        setup_script: None,
    }
}

fn site(platform: Platform, session: &str) -> Site {
    Site { platform, data_known: true, desktop_known: true, session: session.to_string() }
}

fn show(p: &Place) -> String {
    let folder = match &p.folder {
        Folder::UsbRoot => "usb".to_string(),
        Folder::LocalData => "data".to_string(),
        Folder::RoamingData => "roaming".to_string(),
        Folder::Desktop => "desktop".to_string(),
        Folder::ExeDir => "exe".to_string(),
        Folder::At(s) => s.clone(),
    };
    format!("{}:{}", folder, p.path.join("|"))
}

fn show_plan(plan: &Plan) -> Vec<String> {
    plan.steps
        .iter()
        .map(|s| {
            let what = match &s.op {
                Op::MarkExecutable { place, if_present } => {
                    format!("mark {} {}", show(place), if_present)
                }
                Op::CreateDir { place } => format!("mkdir {}", show(place)),
                Op::Write { place, .. } => format!("write {}", show(place)),
                Op::Copy { from, to } => format!("copy {} {}", show(from), show(to)),
                Op::Remove { place } => format!("rm {}", show(place)),
                Op::RefreshDatabase { place } => format!("refresh {}", show(place)),
                Op::Link { link, target, dir, description } => {
                    format!(
                        "link {} {} {} {}",
                        show(link),
                        show(target),
                        show(dir),
                        description
                    )
                }
                Op::Launch { place } => format!("launch {}", show(place)),
            };
            format!("{}{}", if s.required { "!" } else { "?" }, what)
        })
        .collect()
}

#[test]
fn installing_on_linux() {
    let plan =
        install_shortcut(&mon_app(), "/media/moi/CLE", &site(Platform::Linux, "ubuntu:GNOME"))
            .unwrap();
    assert_eq!(
        show_plan(&plan),
        vec![
            "!mark usb:monapp/monapp true",
            "!mkdir data:applications",
            "!write data:applications|mon_app_été.desktop",
            "!mark data:applications|mon_app_été.desktop false",
            "?refresh data:applications",
            "?copy data:applications|mon_app_été.desktop desktop:mon_app_été.desktop",
            "?mark desktop:mon_app_été.desktop false",
        ]
    );
    match &plan.steps[2].op {
        Op::Write { content, .. } => assert_eq!(
            content,
            "[Desktop Entry]\nVersion=1.0\nType=Application\nName=Mon App ÉTÉ\n\
             Comment=Description courte\nExec=/media/moi/CLE/monapp/monapp\n\
             Icon=/media/moi/CLE/monapp/assets/icon.png\nTerminal=false\nCategories=Utility;\n"
        ),
        other => panic!("{:?}", other),
    }
    assert_eq!(show(plan.product.as_ref().unwrap()), "data:applications|mon_app_été.desktop");
}

#[test]
fn installing_with_little_known() {
    let mut app = mon_app();
    app.icon = None;
    app.description = None;
    let mut s = site(Platform::Linux, "i3");
    s.data_known = false;
    let plan = install_shortcut(&app, "/", &s).unwrap();
    assert_eq!(plan.steps.len(), 5);
    assert_eq!(show_plan(&plan)[1], "!mkdir ~/.local/share:applications");
    match &plan.steps[2].op {
        Op::Write { content, .. } => {
            assert!(content.contains("\nComment=\nExec=/monapp/monapp\nIcon=\n"))
        }
        other => panic!("{:?}", other),
    }
    let mut no_desktop = site(Platform::Linux, "KDE");
    no_desktop.desktop_known = false;
    assert_eq!(install_shortcut(&app, "/", &no_desktop).unwrap().steps.len(), 5);
}

#[test]
fn nothing_to_install() {
    let mut app = mon_app();
    app.exec_linux = None;
    app.exec_windows = None;
    assert_eq!(
        install_shortcut(&app, "/", &site(Platform::Linux, "")).unwrap_err(),
        "Pas d'exec_linux"
    );
    assert_eq!(
        install_shortcut(&app, "E:\\", &site(Platform::Windows, "")).unwrap_err(),
        "Pas d'exec_windows"
    );
    assert_eq!(launch_app(&app, Platform::Linux).unwrap_err(), "Pas d'exécutable pour cet OS");
}

#[test]
fn installing_on_windows() {
    let mut s = site(Platform::Windows, "");
    let plan = install_shortcut(&mon_app(), "E:\\", &s).unwrap();
    let menu = "roaming:Microsoft\\Windows\\Start Menu\\Programs";
    assert_eq!(
        show_plan(&plan),
        vec![
            format!("!mkdir {}", menu),
            format!("!link {}|Mon App ÉTÉ.lnk usb:monapp/monapp.exe usb: Description courte", menu),
        ]
    );
    let out = remove_shortcut(&mon_app(), &s).unwrap();
    assert_eq!(show_plan(&out), vec![format!("!rm {}|Mon App ÉTÉ.lnk", menu)]);
    s.data_known = false;
    assert_eq!(
        install_shortcut(&mon_app(), "E:\\", &s).unwrap_err(),
        "Impossible de trouver le menu Démarrer"
    );
    assert_eq!(remove_shortcut(&mon_app(), &s).unwrap_err(), "Menu Démarrer introuvable");
}

#[test]
fn removing_undoes_installing() {
    let s = site(Platform::Linux, "XFCE");
    let plan = install_shortcut(&mon_app(), "/media/x", &s).unwrap();
    let out = show_plan(&remove_shortcut(&mon_app(), &s).unwrap());
    assert_eq!(
        out,
        vec!["!rm data:applications|mon_app_été.desktop", "?rm desktop:mon_app_été.desktop"]
    );
    for step in &plan.steps {
        let made = match &step.op {
            Op::Write { place, .. } => place,
            Op::Copy { to, .. } => to,
            _ => continue,
        };
        assert!(out.iter().any(|o| o.ends_with(&format!("rm {}", show(made)))));
    }
}

#[test]
fn removing_with_nothing_known() {
    let mut s = site(Platform::Linux, "");
    s.data_known = false;
    s.desktop_known = false;
    assert!(remove_shortcut(&mon_app(), &s).unwrap().steps.is_empty());
}

#[test]
fn launching() {
    let plan = launch_app(&mon_app(), Platform::Linux).unwrap();
    assert_eq!(show_plan(&plan), vec!["?mark usb:monapp/monapp false", "!launch usb:monapp/monapp"]);
    let plan = launch_app(&mon_app(), Platform::Windows).unwrap();
    assert_eq!(show_plan(&plan), vec!["!launch usb:monapp/monapp.exe"]);
}

#[test]
fn scripts_are_made_ready() {
    assert_eq!(
        show_plan(&prepare_script("a/setup.sh", Platform::Linux)),
        vec!["?mark usb:a/setup.sh false"]
    );
    assert!(prepare_script("a/setup.sh", Platform::Windows).steps.is_empty());
}

#[test]
fn names_and_environments() {
    assert_eq!(desktop_file_name("mon app"), "mon_app.desktop");
    for shown in ["gnome", "ubuntu:gnome", "kde", "x-cinnamon", "xfce"] {
        assert!(desktop_is_shown(shown));
    }
    assert!(!desktop_is_shown("GNOME"));
    assert!(!desktop_is_shown("unknown"));
    assert_eq!(detect_desktop(Some("KDE"), Some("plasma")), "KDE");
    assert_eq!(detect_desktop(None, Some("plasma")), "plasma");
    assert_eq!(detect_desktop(None, None), "unknown");
}

#[test]
fn link_scripts_double_quotes() {
    assert_eq!(
        link_script("C:\\l'app.lnk", "E:\\a.exe", "E:\\", "d'ici"),
        "$WS = New-Object -ComObject WScript.Shell\n\
         $SC = $WS.CreateShortcut('C:\\l''app.lnk')\n\
         $SC.TargetPath = 'E:\\a.exe'\n\
         $SC.WorkingDirectory = 'E:\\'\n\
         $SC.Description = 'd''ici'\n\
         $SC.Save()"
    );
    assert_eq!(link_outcome(Ok(true)), Ok(()));
    assert_eq!(link_outcome(Ok(false)), Err("Échec du script PowerShell".to_string()));
    assert_eq!(link_outcome(Err("absent".to_string())), Err("absent".to_string()));
}

#[test]
fn a_run_ends_at_the_first_required_failure() {
    let plan = install_shortcut(&mon_app(), "/m", &site(Platform::Linux, "kde")).unwrap();
    let mut run = Run::new(plan);
    let mut done = 0;
    while run.current().is_some() {
        let result = if done == 2 { Err("disque plein".to_string()) } else { Ok(()) };
        run.report(result);
        done += 1;
    }
    assert_eq!(done, 3);
    assert_eq!(run.outcome(), Err("disque plein".to_string()));
}

#[test]
fn a_run_passes_over_what_may_fail() {
    let plan = install_shortcut(&mon_app(), "/m", &site(Platform::Linux, "kde")).unwrap();
    let mut run = Run::new(plan);
    let mut done = 0;
    while let Some(step) = run.current() {
        let result = if step.required { Ok(()) } else { Err("tant pis".to_string()) };
        run.report(result);
        done += 1;
    }
    assert_eq!(done, 7);
    assert_eq!(run.outcome(), Ok(()));
}

#[test]
fn executables_of_the_platform() {
    assert_eq!(mon_app().exec_path(Platform::Linux), Some("monapp/monapp"));
    assert_eq!(mon_app().exec_path(Platform::Unix), Some("monapp/monapp"));
    assert_eq!(mon_app().exec_path(Platform::Windows), Some("monapp/monapp.exe"));
}

#[test]
fn catalogues_that_cannot_be_had() {
    assert_eq!(
        load_apps("/m/apps.json", Err(LoadFailure::Unreadable("refusé".to_string()))).unwrap_err(),
        "/m/apps.json: refusé"
    );
    assert_eq!(
        load_apps("/m/apps.json", Err(LoadFailure::Malformed("ligne 1".to_string()))).unwrap_err(),
        "ligne 1"
    );
    assert_eq!(load_apps("/m/apps.json", Ok(vec![mon_app()])).unwrap().len(), 1);
}

#[test]
fn download_addresses_are_opened() {
    let cmd = open_download_url(&mon_app(), Platform::Linux).unwrap();
    assert_eq!(cmd.program, "xdg-open");
    assert_eq!(cmd.args, vec!["https://exemple.fr/monapp"]);
    let cmd = open_download_url(&mon_app(), Platform::Windows).unwrap();
    assert_eq!(cmd.program, "cmd");
    assert_eq!(cmd.args, vec!["/c", "start", "https://exemple.fr/monapp"]);
    let mut app = mon_app();
    app.download_url = None;
    assert!(open_download_url(&app, Platform::Linux).is_none());
}
