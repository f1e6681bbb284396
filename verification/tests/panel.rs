use baluchon::desk::Tone;
use baluchon::panel::{
    auto_close, bar_label, entry_tone, file_row, file_rows, install_close_label, row_fits,
    setup_bar, setup_close_label, shorten, stays_open,
};
use baluchon::progress::{numeral, parse_line_at, FileStatus, InstallState, Reading};
use baluchon::strings::{Lang, Strings};

fn reading(v: f32) -> Reading {
    Reading { bits: v.to_bits(), rounded: format!("{:.0}", v), tenths: format!("{:.1}", v) }
}

fn state(lines: &[&str]) -> InstallState {
    let mut st = InstallState::new();
    for line in lines {
        let read = numeral(line).and_then(|s| s.parse::<f32>().ok()).map(reading);
        parse_line_at(line, read, "00:00:00", &mut st);
    }
    st
}

#[test]
fn the_bar_counts() {
    let en = Strings { lang: Lang::En };
    assert_eq!(bar_label(&state(&[]), &en, "0"), "Looking for setup assistant…");
    let st = state(&["FILE a d", "FILE b d", "FILE c d", "DONE a 1 1", "FAIL b non"]);
    assert_eq!(bar_label(&st, &en, "33"), "1/3  33%   ✅ 1  ❌ 1");
}

#[test]
fn rows_of_the_table() {
    let st = state(&[
        "FILE a d 1.25",
        "FILE b d",
        "FILE c d 7",
        "FILE d d",
        "DONE a 12.6 34",
        "PROGRESS 41.6",
        "FAIL c plus de place",
    ]);
    let rows = file_rows(&st);
    let shown: Vec<(&str, &str, &str, Tone)> = rows
        .iter()
        .map(|r| (r.number.as_str(), r.size.as_str(), r.status.as_str(), r.tone))
        .collect();
    assert_eq!(
        shown,
        vec![
            ("✓1", "13 MiB", "✅ 34s", Tone::Good),
            ("▶2", "-", "⬇ 42%", Tone::Accent),
            ("✗3", "7.0 MiB", "❌ plus de place", Tone::Bad),
            (" 4", "-", "⏳", Tone::Dim),
        ]
    );
}

#[test]
fn long_names_are_cut() {
    let mut st = state(&["FILE dix-neuf-caracteres douze-caract"]);
    let row = file_row(0, &st.files[0]);
    assert_eq!((row.name.as_str(), row.dest.as_str()), ("dix-neuf-caracter…", "douze-caract"));
    st.files[0].name = "dix-neuf-caractère".to_string();
    assert!(row_fits(&st.files[0]));
    assert_eq!(file_row(0, &st.files[0]).name, "dix-neuf-caractè…");
    st.files[0].name = "seize-octets-abcéé".to_string();
    assert!(!row_fits(&st.files[0]));
    st.files[0].name = "court".to_string();
    st.files[0].dest = "/opt/quelque/part".to_string();
    assert_eq!(file_row(0, &st.files[0]).dest, "/opt/quelqu…");
    assert_eq!(shorten("exactement-dix-hui", 18, 17), "exactement-dix-hui");
}

#[test]
fn closing_by_itself() {
    let mut st = state(&[]);
    assert_eq!(auto_close(&st, 5), None);
    st.auto_close_secs = Some(5);
    assert_eq!(auto_close(&st, 5), None);
    st.auto_close_start = Some(1_000_000_000);
    assert_eq!(auto_close(&st, 0), Some(5));
    assert_eq!(auto_close(&st, 1_999_999_999), Some(5));
    assert_eq!(auto_close(&st, 2_000_000_000), Some(4));
    assert_eq!(auto_close(&st, 6_000_000_000), Some(0));
    assert_eq!(auto_close(&st, 60_000_000_000), Some(0));
    assert_eq!(auto_close(&st, 1_000_000_000 + (1u64 << 32) * 1_000_000_000), Some(5));
    assert!(stays_open(false, None) && stays_open(false, Some(1)));
    assert!(!stays_open(false, Some(0)) && !stays_open(true, None));
    assert_eq!(install_close_label(&Strings { lang: Lang::En }, 3), "·  auto-close in 3s");
    assert_eq!(setup_close_label(&Strings { lang: Lang::En }, 3), "·  auto-close in 3s");
    assert_eq!(setup_close_label(&Strings { lang: Lang::Fr }, 3), "·  fermeture auto dans 3s");
}

#[test]
fn the_log_panel() {
    let mut st = state(&[]);
    assert_eq!(setup_bar(&st), ("🐍 setup_venv_lang…", None));
    st.done = true;
    assert_eq!(setup_bar(&st), ("✅ Terminé", Some(Tone::Good)));
    st.error = Some("e".into());
    assert_eq!(setup_bar(&st), ("❌ Erreur", Some(Tone::Bad)));
    assert_eq!(entry_tone("[..] ⚠ x"), Tone::Bad);
    assert_eq!(entry_tone("an error ✅"), Tone::Bad);
    assert_eq!(entry_tone("Error"), Tone::Bad);
    assert_eq!(entry_tone("✅ ok"), Tone::Good);
    assert_eq!(entry_tone("ERROR"), Tone::Dim);
}

#[test]
fn every_status_has_a_row() {
    let mut st = state(&["FILE a d"]);
    st.files[0].status = FileStatus::Downloading { percent: reading(99.5) };
    assert_eq!(file_row(8, &st.files[0]).number, "▶9");
}
