//! What the interface says, in both languages.
use vstd::prelude::*;

use crate::laws::of_texts::{law_decimal, number_of};
use crate::strings::{Lang, Strings};
use crate::text::decimal;

verus! {

/// A text in the language that is set, of a French and an English one.
pub open spec fn in_lang(s: Strings, text: Seq<char>, fr: Seq<char>, en: Seq<char>) -> bool {
    &&& s.lang == Lang::Fr ==> text == fr
    &&& s.lang == Lang::En ==> text == en
}

/// The interface is in French exactly where the variable that counts begins with
/// `fr`: that is `LANG`, and `LANGUAGE` only where there is no `LANG`.
pub proof fn law_language(lang: Option<&str>, language: Option<&str>, r: Strings)
    requires
        call_ensures(Strings::new, (lang, language), r),
    ensures
        lang matches Some(s) ==> (r.lang == Lang::Fr <==> s@.len() >= 2 && s@[0] == 'f' && s@[1]
            == 'r'),
        lang is None && language is None ==> r.lang == Lang::En,
        lang is None ==> (language matches Some(s) ==> (r.lang == Lang::Fr <==> s@.len() >= 2
            && s@[0] == 'f' && s@[1] == 'r')),
{
    reveal_strlit("fr");
    lemma_begins_with_fr(if lang is Some {
        lang->0@
    } else if language is Some {
        language->0@
    } else {
        Seq::empty()
    });
}

proof fn lemma_begins_with_fr(s: Seq<char>)
    ensures
        crate::text::has_prefix(s, "fr"@) <==> s.len() >= 2 && s[0] == 'f' && s[1] == 'r',
{
    reveal_strlit("fr");
    if s.len() >= 2 {
        if s[0] == 'f' && s[1] == 'r' {
            assert(s.take(2) =~= "fr"@);
        }
        if s.take(2) == "fr"@ {
            assert(s.take(2)[0] == s[0]);
            assert(s.take(2)[1] == s[1]);
        }
    }
}

/// The header speaks the language that is set: its title, what it says of the
/// drive, and the choice of the language.
pub proof fn law_header_labels(
    s: &Strings,
    title: &str,
    label_usb: &str,
    label_no_usb: &str,
    label_lang: &str,
)
    requires
        call_ensures(Strings::title, (s,), title),
        call_ensures(Strings::label_usb, (s,), label_usb),
        call_ensures(Strings::label_no_usb, (s,), label_no_usb),
        call_ensures(Strings::label_lang, (s,), label_lang),
    ensures
        in_lang(*s, title@, "Baluchon – Applis portables"@, "Baluchon – Portable Apps"@),
        in_lang(*s, label_usb@, "Clé USB détectée :"@, "USB drive detected:"@),
        in_lang(*s, label_no_usb@, "❌ Aucune clé USB trouvée"@, "❌ No USB drive found"@),
        in_lang(*s, label_lang@, "Langue / Language"@, "Langue / Language"@),
{
}

/// The buttons speak the language that is set.
pub proof fn law_buttons(
    s: &Strings,
    btn_launch: &str,
    btn_install: &str,
    btn_remove: &str,
    btn_download: &str,
    ia_btn_close: &str,
)
    requires
        call_ensures(Strings::btn_launch, (s,), btn_launch),
        call_ensures(Strings::btn_install, (s,), btn_install),
        call_ensures(Strings::btn_remove, (s,), btn_remove),
        call_ensures(Strings::btn_download, (s,), btn_download),
        call_ensures(Strings::ia_btn_close, (s,), ia_btn_close),
    ensures
        in_lang(*s, btn_launch@, "▶  Lancer"@, "▶  Launch"@),
        in_lang(*s, btn_install@, "📌  Installer les raccourcis"@, "📌  Install shortcuts"@),
        in_lang(*s, btn_remove@, "🗑  Supprimer les raccourcis"@, "🗑  Remove shortcuts"@),
        in_lang(*s, btn_download@, "⚙  Initialiser"@, "⚙  Initialize"@),
        in_lang(*s, ia_btn_close@, "[q] Fermer"@, "[q] Close"@),
{
}

/// So do the empty list and the status line.
pub proof fn law_list_labels(
    s: &Strings,
    label_no_apps: &str,
    label_status: &str,
)
    requires
        call_ensures(Strings::label_no_apps, (s,), label_no_apps),
        call_ensures(Strings::label_status, (s,), label_status),
    ensures
        in_lang(*s, label_no_apps@, "Aucune application trouvée dans apps.json"@, "No apps found in apps.json"@),
        in_lang(*s, label_status@, "Statut"@, "Status"@),
{
}

/// So do the panels: their titles and what stands over their bars.
pub proof fn law_panel_labels(
    s: &Strings,
    ia_title: &str,
    py_title: &str,
    ia_in_progress: &str,
    ia_searching: &str,
)
    requires
        call_ensures(Strings::ia_title, (s,), ia_title),
        call_ensures(Strings::py_title, (s,), py_title),
        call_ensures(Strings::ia_in_progress, (s,), ia_in_progress),
        call_ensures(Strings::ia_searching, (s,), ia_searching),
    ensures
        in_lang(*s, ia_title@, "setup-assistant"@, "setup-assistant"@),
        in_lang(*s, py_title@, "setup_venv_lang.sh"@, "setup_venv_lang.sh"@),
        in_lang(*s, ia_in_progress@, "En cours"@, "In progress"@),
        in_lang(*s, ia_searching@, "Recherche de l’assistant de configuration…"@, "Looking for setup assistant…"@),
{
}

/// So does the table of files.
pub proof fn law_column_labels(
    s: &Strings,
    ia_file_col: &str,
    ia_dest_col: &str,
    ia_size_col: &str,
    ia_stat_col: &str,
)
    requires
        call_ensures(Strings::ia_file_col, (s,), ia_file_col),
        call_ensures(Strings::ia_dest_col, (s,), ia_dest_col),
        call_ensures(Strings::ia_size_col, (s,), ia_size_col),
        call_ensures(Strings::ia_stat_col, (s,), ia_stat_col),
    ensures
        in_lang(*s, ia_file_col@, "Fichier"@, "File"@),
        in_lang(*s, ia_dest_col@, "Destination"@, "Destination"@),
        in_lang(*s, ia_size_col@, "Taille"@, "Size"@),
        in_lang(*s, ia_stat_col@, "Statut"@, "Status"@),
{
}

/// The status line names the application and says what was done for it.
pub proof fn law_good_news(
    s: &Strings,
    name: &str,
    launched: String,
    installed: String,
    removed: String,
)
    requires
        call_ensures(Strings::msg_launched, (s, name), launched),
        call_ensures(Strings::msg_shortcut_ok, (s, name), installed),
        call_ensures(Strings::msg_shortcut_removed, (s, name), removed),
    ensures
        in_lang(*s, launched@, "✅ "@ + name@ + " lancé"@, "✅ "@ + name@ + " launched"@),
        in_lang(
            *s,
            installed@,
            "✅ Raccourci installé pour "@ + name@,
            "✅ Shortcut installed for "@ + name@,
        ),
        in_lang(
            *s,
            removed@,
            "🗑 Raccourci supprimé pour "@ + name@,
            "🗑 Shortcut removed for "@ + name@,
        ),
{
}

/// The status line gives the reason of a failure, and the path of a script that
/// is not there.
pub proof fn law_bad_news(
    s: &Strings,
    text: &str,
    error: String,
    missing: String,
    no_script: String,
    no_exec: String,
)
    requires
        call_ensures(Strings::msg_error, (s, text), error),
        call_ensures(Strings::msg_setup_missing, (s, text), missing),
        call_ensures(Strings::msg_no_setup_script, (s,), no_script),
        call_ensures(Strings::msg_no_exec, (s,), no_exec),
    ensures
        in_lang(*s, error@, "❌ Erreur : "@ + text@, "❌ Error: "@ + text@),
        in_lang(*s, missing@, "❌ Script introuvable : "@ + text@, "❌ Script not found: "@ + text@),
        in_lang(
            *s,
            no_script@,
            "❌ Aucun setup_script défini pour cette app"@,
            "❌ No setup_script defined for this app"@,
        ),
        in_lang(
            *s,
            no_exec@,
            "❌ Pas d'exécutable défini pour cet OS"@,
            "❌ No executable defined for this OS"@,
        ),
{
}

/// The countdown names the seconds that are left.
pub proof fn law_countdown(s: &Strings, n: u32, r: String)
    requires
        call_ensures(Strings::ia_auto_close, (s, n), r),
    ensures
        in_lang(
            *s,
            r@,
            "fermeture auto dans "@ + decimal(n as nat) + "s"@,
            "auto-close in "@ + decimal(n as nat) + "s"@,
        ),
        number_of(decimal(n as nat)) == n,
{
    law_decimal(n as nat);
}

} // verus!
