use baluchon::strings::{Lang, Strings};

fn both() -> (Strings, Strings) {
    (Strings { lang: Lang::Fr }, Strings { lang: Lang::En })
}

#[test]
fn language_is_detected() {
    assert_eq!(Strings::new(Some("fr_FR.UTF-8"), None).lang, Lang::Fr);
    assert_eq!(Strings::new(Some("en_US"), Some("fr")).lang, Lang::En);
    assert_eq!(Strings::new(None, Some("fr:en")).lang, Lang::Fr);
    assert_eq!(Strings::new(None, None).lang, Lang::En);
    assert_eq!(Strings::new(Some(""), Some("fr")).lang, Lang::En);
}

#[test]
fn labels() {
    let (fr, en) = both();
    assert_eq!(fr.title(), "Baluchon – Applis portables");
    assert_eq!(en.title(), "Baluchon – Portable Apps");
    assert_eq!(fr.btn_launch(), "▶  Lancer");
    assert_eq!(en.btn_install(), "📌  Install shortcuts");
    assert_eq!(fr.btn_remove(), "🗑  Supprimer les raccourcis");
    assert_eq!(en.btn_download(), "⚙  Initialize");
    assert_eq!(fr.label_usb(), "Clé USB détectée :");
    assert_eq!(en.label_no_usb(), "❌ No USB drive found");
    assert_eq!(fr.label_no_apps(), "Aucune application trouvée dans apps.json");
    assert_eq!(en.label_status(), "Status");
    assert_eq!(fr.label_lang(), en.label_lang());
    assert_eq!(fr.ia_title(), "setup-assistant");
    assert_eq!(en.ia_btn_close(), "[q] Close");
    assert_eq!(fr.ia_in_progress(), "En cours");
    assert_eq!(en.ia_file_col(), "File");
    assert_eq!(fr.ia_dest_col(), "Destination");
    assert_eq!(fr.ia_size_col(), "Taille");
    assert_eq!(en.ia_stat_col(), "Status");
    assert_eq!(fr.ia_searching(), "Recherche de l’assistant de configuration…");
    assert_eq!(en.py_title(), "setup_venv_lang.sh");
}

#[test]
fn messages() {
    let (fr, en) = both();
    assert_eq!(fr.msg_no_setup_script(), "❌ Aucun setup_script défini pour cette app");
    assert_eq!(en.msg_setup_missing("/x"), "❌ Script not found: /x");
    assert_eq!(fr.msg_launched("MonApp"), "✅ MonApp lancé");
    assert_eq!(en.msg_launched("MonApp"), "✅ MonApp launched");
    assert_eq!(fr.msg_shortcut_ok("MonApp"), "✅ Raccourci installé pour MonApp");
    assert_eq!(en.msg_shortcut_removed("MonApp"), "🗑 Shortcut removed for MonApp");
    assert_eq!(fr.msg_error("e"), "❌ Erreur : e");
    assert_eq!(en.msg_no_exec(), "❌ No executable defined for this OS");
    assert_eq!(fr.ia_auto_close(5), "fermeture auto dans 5s");
    assert_eq!(en.ia_auto_close(12), "auto-close in 12s");
}
