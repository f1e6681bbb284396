use baluchon::catalog::{AppEntry, Platform};
use baluchon::desk::{
    details, launch_mark, logo_places, BaluchonApp, JobKind, Tone,
};
use baluchon::icon::load_icon;
use baluchon::plan::Folder;
use baluchon::shortcut::Site;
use baluchon::strings::{Lang, Strings};

fn app(name: &str, exec: Option<&str>, script: Option<&str>) -> AppEntry {
    AppEntry {
        name: name.to_string(),
        exec_linux: exec.map(|s| s.to_string()),
        exec_windows: None,
        icon: None,
        description: None,
        download_url: None,
        setup_script: script.map(|s| s.to_string()),
    }
}

fn desk() -> BaluchonApp {
    let apps = vec![app("Un", Some("un/un"), Some("un/setup.sh")), app("Deux", None, None)];
    let strings = Strings { lang: Lang::En };
    BaluchonApp::new(strings, Some(("/media/x".to_string(), Ok(apps))))
}

fn linux() -> Site {
    Site {
        platform: Platform::Linux,
        data_known: true,
        desktop_known: true,
        session: "KDE".to_string(),
    }
}

#[test]
fn at_the_start() {
    let strings = Strings { lang: Lang::Fr };
    let d = BaluchonApp::new(strings, None);
    assert!(d.usb_root.is_none() && d.apps.is_empty() && d.load_error_label().is_none());
    let d = BaluchonApp::new(strings, Some(("/m".into(), Err("illisible".into()))));
    assert_eq!(d.load_error_label(), Some("❌ illisible".to_string()));
    assert!(d.apps.is_empty() && !d.has_selection());
    assert!(desk().selected_app().is_none());
    assert!(!desk().install_panel && !desk().setup_panel);
}

#[test]
fn selecting() {
    let mut d = desk();
    d.select(1);
    assert_eq!(d.selected_app().unwrap().name, "Deux");
    assert!(d.has_selection() && d.can_download());
    d.select(9);
    assert!(d.selected_app().is_none());
}

#[test]
fn launching_the_selected() {
    let mut d = desk();
    assert!(d.action_launch(Platform::Linux).is_none());
    assert_eq!(d.status, "❌ No executable defined for this OS");
    d.select(1);
    assert!(d.action_launch(Platform::Linux).is_none());
    assert_eq!(d.status, "❌ Error: Pas d'exécutable pour cet OS");
    assert_eq!(d.status_tone(), Tone::Bad);
    d.select(0);
    let job = d.action_launch(Platform::Linux).unwrap();
    assert_eq!((job.kind, job.name.as_str(), job.plan.steps.len()), (JobKind::Launch, "Un", 2));
    d.finish(job.kind, &job.name, Ok(()));
    assert_eq!(d.status, "✅ Un launched");
    assert_eq!(d.status_tone(), Tone::Good);
    d.finish(job.kind, &job.name, Err("absent".into()));
    assert_eq!(d.status, "❌ Error: absent");
}

#[test]
fn installing_and_removing_the_selected() {
    let mut d = desk();
    d.set_lang(Lang::Fr);
    assert!(d.action_install(&linux()).is_none() && d.action_remove(&linux()).is_none());
    assert_eq!(d.status, "");
    d.select(1);
    assert!(d.action_install(&linux()).is_none());
    assert_eq!(d.status, "❌ Erreur : Pas d'exec_linux");
    d.select(0);
    let job = d.action_install(&linux()).unwrap();
    d.finish(job.kind, &job.name, Ok(()));
    assert_eq!(d.status, "✅ Raccourci installé pour Un");
    let job = d.action_remove(&linux()).unwrap();
    assert_eq!(job.kind, JobKind::Remove);
    d.finish(job.kind, &job.name, Ok(()));
    assert_eq!(d.status, "🗑 Raccourci supprimé pour Un");
    assert_eq!(d.status_tone(), Tone::Good);
}

#[test]
fn setting_up_the_selected() {
    let mut d = desk();
    assert!(d.action_download().is_none());
    assert_eq!(d.status, "❌ No setup_script defined for this app");
    d.select(0);
    assert_eq!(d.action_download(), Some("un/setup.sh".to_string()));
    assert!(!d.setup_checked("/media/x/un/setup.sh", false));
    assert_eq!(d.status, "❌ Script not found: /media/x/un/setup.sh");
    assert!(d.can_download());
    assert!(d.setup_checked("/media/x/un/setup.sh", true));
    assert!(d.install_panel && !d.can_download() && d.has_selection());
    d.keep_panels(true, true);
    assert!(d.install_panel);
    d.keep_panels(false, true);
    assert!(!d.install_panel && d.can_download());
    d.usb_root = None;
    assert!(d.action_download().is_none());
    assert_eq!(d.status, "❌ No executable defined for this OS");
    assert!(d.action_install(&linux()).is_none());
}

#[test]
fn details_of_an_application() {
    let mut a = app("Un", Some("un/un"), None);
    a.download_url = Some("https://x".into());
    let d = details(&a, Platform::Linux, Some("KDE"));
    assert_eq!((d.os.as_str(), d.program.as_str()), ("OS : Linux", "Exec : un/un"));
    assert_eq!(d.url.as_deref(), Some("URL : https://x"));
    assert_eq!(d.desktop.as_deref(), Some("DE : KDE"));
    let d = details(&app("Deux", None, None), Platform::Windows, None);
    assert_eq!((d.os.as_str(), d.program.as_str()), ("OS : Windows", "Exec : —"));
    assert!(d.url.is_none() && d.desktop.is_none());
    assert_eq!(launch_mark(&a, Platform::Linux), ("●", Tone::Good));
    assert_eq!(launch_mark(&a, Platform::Windows), ("○", Tone::Bad));
}

#[test]
fn places_of_the_logo() {
    let places = logo_places(true, true);
    assert!(matches!(places[0].folder, Folder::ExeDir));
    assert!(matches!(places[1].folder, Folder::UsbRoot));
    assert_eq!(places[1].path, vec!["baluchon.png"]);
    assert!(logo_places(false, false).is_empty());
}

#[test]
fn pictures_are_read() {
    let png: [u8; 72] = [
        137, 80, 78, 71, 13, 10, 26, 10, 0, 0, 0, 13, 73, 72, 68, 82, 0, 0, 0, 2, 0, 0, 0, 1, 8, 2,
        0, 0, 0, 123, 64, 232, 221, 0, 0, 0, 15, 73, 68, 65, 84, 120, 156, 99, 224, 18, 145, 211,
        48, 178, 1, 0, 2, 55, 0, 211, 91, 86, 81, 216, 0, 0, 0, 0, 73, 69, 78, 68, 174, 66, 96, 130,
    ];
    let picture = load_icon(&png).unwrap();
    assert_eq!((picture.width, picture.height), (2, 1));
    assert_eq!(picture.rgba, vec![10, 20, 30, 255, 40, 50, 60, 255]);
    assert!(load_icon(&png[..40]).is_none());
    assert!(load_icon(&[]).is_none());
}
