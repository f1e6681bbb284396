//! The texts of the interface, in French and in English.
use vstd::prelude::*;

use crate::scan::{number, starts_with};
use crate::text::{decimal, has_prefix, opt_str};

verus! {

/// A language of the interface.
#[derive(Clone, Copy, Debug, PartialEq, Eq, Structural)]
pub enum Lang {
    Fr,
    En,
}

/// The text for a language, out of the French and the English one.
pub open spec fn pick(lang: Lang, fr: Seq<char>, en: Seq<char>) -> Seq<char> {
    match lang {
        Lang::Fr => fr,
        Lang::En => en,
    }
}

/// The language that the environment asks for: the variable `LANG`, or
/// `LANGUAGE` where there is no `LANG`, decides by whether it begins with `fr`.
pub open spec fn asked_lang(lang: Option<Seq<char>>, language: Option<Seq<char>>) -> Lang {
    let value = match lang {
        Some(s) => s,
        None => match language {
            Some(s) => s,
            None => Seq::empty(),
        },
    };
    if has_prefix(value, "fr"@) {
        Lang::Fr
    } else {
        Lang::En
    }
}

/// The application has no setup script.
pub open spec fn no_setup_script_text(lang: Lang) -> Seq<char> {
    pick(lang, "❌ Aucun setup_script défini pour cette app"@, "❌ No setup_script defined for this app"@)
}

/// There is nothing to launch.
pub open spec fn no_exec_text(lang: Lang) -> Seq<char> {
    pick(lang, "❌ Pas d'exécutable défini pour cet OS"@, "❌ No executable defined for this OS"@)
}

/// The setup script at `p` does not exist.
pub open spec fn setup_missing_text(lang: Lang, p: Seq<char>) -> Seq<char> {
    pick(lang, "❌ Script introuvable : "@ + p, "❌ Script not found: "@ + p)
}

/// The application was launched.
pub open spec fn launched_text(lang: Lang, name: Seq<char>) -> Seq<char> {
    pick(lang, "✅ "@ + name + " lancé"@, "✅ "@ + name + " launched"@)
}

/// Its shortcut was installed.
pub open spec fn shortcut_ok_text(lang: Lang, name: Seq<char>) -> Seq<char> {
    pick(lang, "✅ Raccourci installé pour "@ + name, "✅ Shortcut installed for "@ + name)
}

/// Its shortcut was removed.
pub open spec fn shortcut_removed_text(lang: Lang, name: Seq<char>) -> Seq<char> {
    pick(lang, "🗑 Raccourci supprimé pour "@ + name, "🗑 Shortcut removed for "@ + name)
}

/// Something failed, for the reason `e`.
pub open spec fn error_text(lang: Lang, e: Seq<char>) -> Seq<char> {
    pick(lang, "❌ Erreur : "@ + e, "❌ Error: "@ + e)
}

/// The panel closes by itself in `n` seconds.
pub open spec fn auto_close_text(lang: Lang, n: nat) -> Seq<char> {
    pick(lang, "fermeture auto dans "@ + decimal(n) + "s"@, "auto-close in "@ + decimal(n) + "s"@)
}

/// No file was announced yet.
pub open spec fn searching_text(lang: Lang) -> Seq<char> {
    pick(lang, "Recherche de l’assistant de configuration…"@, "Looking for setup assistant…"@)
}

/// The texts of the interface in the language that is set.
#[derive(Clone, Copy, Debug)]
pub struct Strings {
    pub lang: Lang,
}

impl Strings {
    /// The texts in the language that the variables `LANG` and `LANGUAGE` ask
    /// for.
    pub fn new(lang: Option<&str>, language: Option<&str>) -> (r: Strings)
        ensures
            r.lang == asked_lang(opt_str(lang), opt_str(language)),
    {
        let value: &str = match lang {
            Some(s) => s,
            None => match language {
                Some(s) => s,
                None => "",
            },
        };
        proof {
            reveal_strlit("");
            assert(""@ =~= Seq::<char>::empty());
        }
        if starts_with(value, "fr") {
            Strings { lang: Lang::Fr }
        } else {
            Strings { lang: Lang::En }
        }
    }

    /// The title of the main window's header.
    pub fn title(&self) -> (r: &str)
        ensures
            r@ == pick(self.lang, "Baluchon – Applis portables"@, "Baluchon – Portable Apps"@),
    {
        match self.lang {
            Lang::Fr => "Baluchon – Applis portables",
            Lang::En => "Baluchon – Portable Apps",
        }
    }

    /// The button that launches the selected application.
    pub fn btn_launch(&self) -> (r: &str)
        ensures
            r@ == pick(self.lang, "▶  Lancer"@, "▶  Launch"@),
    {
        match self.lang {
            Lang::Fr => "▶  Lancer",
            Lang::En => "▶  Launch",
        }
    }

    /// The button that installs its shortcut.
    pub fn btn_install(&self) -> (r: &str)
        ensures
            r@ == pick(self.lang, "📌  Installer les raccourcis"@, "📌  Install shortcuts"@),
    {
        match self.lang {
            Lang::Fr => "📌  Installer les raccourcis",
            Lang::En => "📌  Install shortcuts",
        }
    }

    /// The button that removes its shortcut.
    pub fn btn_remove(&self) -> (r: &str)
        ensures
            r@ == pick(self.lang, "🗑  Supprimer les raccourcis"@, "🗑  Remove shortcuts"@),
    {
        match self.lang {
            Lang::Fr => "🗑  Supprimer les raccourcis",
            Lang::En => "🗑  Remove shortcuts",
        }
    }

    /// The button that runs its setup script.
    pub fn btn_download(&self) -> (r: &str)
        ensures
            r@ == pick(self.lang, "⚙  Initialiser"@, "⚙  Initialize"@),
    {
        match self.lang {
            Lang::Fr => "⚙  Initialiser",
            Lang::En => "⚙  Initialize",
        }
    }

    /// In front of the root of the drive that was found.
    pub fn label_usb(&self) -> (r: &str)
        ensures
            r@ == pick(self.lang, "Clé USB détectée :"@, "USB drive detected:"@),
    {
        match self.lang {
            Lang::Fr => "Clé USB détectée :",
            Lang::En => "USB drive detected:",
        }
    }

    /// Shown where no drive was found.
    pub fn label_no_usb(&self) -> (r: &str)
        ensures
            r@ == pick(self.lang, "❌ Aucune clé USB trouvée"@, "❌ No USB drive found"@),
    {
        match self.lang {
            Lang::Fr => "❌ Aucune clé USB trouvée",
            Lang::En => "❌ No USB drive found",
        }
    }

    /// Shown where the catalogue is empty.
    pub fn label_no_apps(&self) -> (r: &str)
        ensures
            r@ == pick(self.lang, "Aucune application trouvée dans apps.json"@, "No apps found in apps.json"@),
    {
        match self.lang {
            Lang::Fr => "Aucune application trouvée dans apps.json",
            Lang::En => "No apps found in apps.json",
        }
    }

    /// In front of the status line.
    pub fn label_status(&self) -> (r: &str)
        ensures
            r@ == pick(self.lang, "Statut"@, "Status"@),
    {
        match self.lang {
            Lang::Fr => "Statut",
            Lang::En => "Status",
        }
    }

    /// The title of the setup panel.
    pub fn ia_title(&self) -> (r: &str)
        ensures
            r@ == pick(self.lang, "setup-assistant"@, "setup-assistant"@),
    {
        match self.lang {
            Lang::Fr => "setup-assistant",
            Lang::En => "setup-assistant",
        }
    }

    /// The button that closes a panel.
    pub fn ia_btn_close(&self) -> (r: &str)
        ensures
            r@ == pick(self.lang, "[q] Fermer"@, "[q] Close"@),
    {
        match self.lang {
            Lang::Fr => "[q] Fermer",
            Lang::En => "[q] Close",
        }
    }

    /// In front of the bar of the current file.
    pub fn ia_in_progress(&self) -> (r: &str)
        ensures
            r@ == pick(self.lang, "En cours"@, "In progress"@),
    {
        match self.lang {
            Lang::Fr => "En cours",
            Lang::En => "In progress",
        }
    }

    /// Header of the column of names.
    pub fn ia_file_col(&self) -> (r: &str)
        ensures
            r@ == pick(self.lang, "Fichier"@, "File"@),
    {
        match self.lang {
            Lang::Fr => "Fichier",
            Lang::En => "File",
        }
    }

    /// Header of the column of destinations.
    pub fn ia_dest_col(&self) -> (r: &str)
        ensures
            r@ == pick(self.lang, "Destination"@, "Destination"@),
    {
        match self.lang {
            Lang::Fr => "Destination",
            Lang::En => "Destination",
        }
    }

    /// Header of the column of sizes.
    pub fn ia_size_col(&self) -> (r: &str)
        ensures
            r@ == pick(self.lang, "Taille"@, "Size"@),
    {
        match self.lang {
            Lang::Fr => "Taille",
            Lang::En => "Size",
        }
    }

    /// Header of the column of states.
    pub fn ia_stat_col(&self) -> (r: &str)
        ensures
            r@ == pick(self.lang, "Statut"@, "Status"@),
    {
        match self.lang {
            Lang::Fr => "Statut",
            Lang::En => "Status",
        }
    }

    /// Shown while no file was announced yet.
    pub fn ia_searching(&self) -> (r: &str)
        ensures
            r@ == searching_text(self.lang),
    {
        match self.lang {
            Lang::Fr => "Recherche de l’assistant de configuration…",
            Lang::En => "Looking for setup assistant…",
        }
    }

    /// The application has no setup script.
    pub fn msg_no_setup_script(&self) -> (r: String)
        ensures
            r@ == no_setup_script_text(self.lang),
    {
        match self.lang {
            Lang::Fr => "❌ Aucun setup_script défini pour cette app".to_owned(),
            Lang::En => "❌ No setup_script defined for this app".to_owned(),
        }
    }

    /// There is nothing to launch.
    pub fn msg_no_exec(&self) -> (r: String)
        ensures
            r@ == no_exec_text(self.lang),
    {
        match self.lang {
            Lang::Fr => "❌ Pas d'exécutable défini pour cet OS".to_owned(),
            Lang::En => "❌ No executable defined for this OS".to_owned(),
        }
    }

    /// The setup script at `p` does not exist.
    pub fn msg_setup_missing(&self, p: &str) -> (r: String)
        ensures
            r@ == setup_missing_text(self.lang, p@),
    {
        match self.lang {
            Lang::Fr => "❌ Script introuvable : ".to_owned().concat(p),
            Lang::En => "❌ Script not found: ".to_owned().concat(p),
        }
    }

    /// The application was launched.
    pub fn msg_launched(&self, name: &str) -> (r: String)
        ensures
            r@ == launched_text(self.lang, name@),
    {
        match self.lang {
            Lang::Fr => "✅ ".to_owned().concat(name).concat(" lancé"),
            Lang::En => "✅ ".to_owned().concat(name).concat(" launched"),
        }
    }

    /// Its shortcut was installed.
    pub fn msg_shortcut_ok(&self, name: &str) -> (r: String)
        ensures
            r@ == shortcut_ok_text(self.lang, name@),
    {
        match self.lang {
            Lang::Fr => "✅ Raccourci installé pour ".to_owned().concat(name),
            Lang::En => "✅ Shortcut installed for ".to_owned().concat(name),
        }
    }

    /// Its shortcut was removed.
    pub fn msg_shortcut_removed(&self, name: &str) -> (r: String)
        ensures
            r@ == shortcut_removed_text(self.lang, name@),
    {
        match self.lang {
            Lang::Fr => "🗑 Raccourci supprimé pour ".to_owned().concat(name),
            Lang::En => "🗑 Shortcut removed for ".to_owned().concat(name),
        }
    }

    /// Something failed, for the reason `e`.
    pub fn msg_error(&self, e: &str) -> (r: String)
        ensures
            r@ == error_text(self.lang, e@),
    {
        match self.lang {
            Lang::Fr => "❌ Erreur : ".to_owned().concat(e),
            Lang::En => "❌ Error: ".to_owned().concat(e),
        }
    }

    /// The panel closes by itself in `n` seconds.
    pub fn ia_auto_close(&self, n: u32) -> (r: String)
        ensures
            r@ == auto_close_text(self.lang, n as nat),
    {
        let secs = number(n as u64);
        match self.lang {
            Lang::Fr => "fermeture auto dans ".to_owned().concat(secs.as_str()).concat("s"),
            Lang::En => "auto-close in ".to_owned().concat(secs.as_str()).concat("s"),
        }
    }

    /// In front of the choice of the language.
    pub fn label_lang(&self) -> (r: &str)
        ensures
            r@ == "Langue / Language"@,
    {
        "Langue / Language"
    }

    /// The title of the log panel.
    pub fn py_title(&self) -> (r: &str)
        ensures
            r@ == "setup_venv_lang.sh"@,
    {
        "setup_venv_lang.sh"
    }
}

} // verus!
