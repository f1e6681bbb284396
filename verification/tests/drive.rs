use baluchon::catalog::Platform;
use baluchon::drive::{find_usb_root, first_present, DriveSearch, Probe};

fn show(s: &DriveSearch) -> Vec<String> {
    s.probes
        .iter()
        .map(|p| match p {
            Probe::ExeAncestor(n) => format!("exe{}", n),
            Probe::Entries(d) => format!("{}/*", d),
            Probe::Root(d) => d.clone(),
        })
        .collect()
}

#[test]
fn places_on_linux() {
    assert_eq!(
        show(&find_usb_root(Platform::Linux, true, Some("moi"))),
        vec![
            "exe1", "exe2", "exe3", "exe4", "/media/moi/*", "/media/*", "/run/media/moi/*",
            "/run/media/*", "/mnt/moi/*", "/mnt/*",
        ]
    );
    assert_eq!(
        show(&find_usb_root(Platform::Linux, false, None)),
        vec!["/media/*", "/run/media/*", "/mnt/*"]
    );
}

#[test]
fn places_on_windows() {
    let places = show(&find_usb_root(Platform::Windows, false, Some("moi")));
    let want: Vec<String> = (b'D'..=b'Z').map(|l| format!("{}:\\", l as char)).collect();
    assert_eq!(places, want);
    assert_eq!(show(&find_usb_root(Platform::Windows, true, None)).len(), 27);
}

#[test]
fn places_elsewhere() {
    let places = show(&find_usb_root(Platform::Unix, true, Some("moi")));
    assert_eq!(places, vec!["exe1", "exe2", "exe3", "exe4"]);
    assert!(find_usb_root(Platform::Unix, false, None).current().is_none());
}

#[test]
fn the_first_drive_is_found() {
    let mut s = find_usb_root(Platform::Linux, false, None);
    assert!(matches!(s.current(), Some(Probe::Entries(d)) if d == "/media"));
    s.report(&vec![false, false]);
    assert!(matches!(s.current(), Some(Probe::Entries(d)) if d == "/run/media"));
    s.report(&vec![false, true, true]);
    assert!(s.current().is_none());
    assert_eq!(s.result(), Some((1, 1)));
}

#[test]
fn no_drive_is_found() {
    let mut s = find_usb_root(Platform::Windows, true, None);
    let mut n = 0;
    while s.current().is_some() {
        s.report(&if n % 2 == 0 { vec![] } else { vec![false] });
        n += 1;
    }
    assert_eq!(n, 27);
    assert_eq!(s.result(), None);
}

#[test]
fn first_of_several() {
    assert_eq!(first_present(&vec![false, true, true]), 1);
    assert_eq!(first_present(&vec![false]), 1);
    assert_eq!(first_present(&vec![]), 0);
}
