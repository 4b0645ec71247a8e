//! The settings page.
//!
//! Every switch here applies the moment it is flipped. There is no save step: a settings page that
//! needs one invites the user to wonder whether the last change took.

use crate::i18n;
use crate::i18n::{say1, set_language, text, Catalog};
use crate::model::{AppSettings, SettingsModel};
use crate::platform::autostart::AutoStartState;
use crate::search;
use crate::strings;
use crate::strings::Language;
use crate::text::{owned, same_text};
use vstd::prelude::*;

verus! {

/// See the module docs.
#[derive(Debug)]
pub struct SettingsView {
    pub settings: AppSettings,
    pub auto_start_state: AutoStartState,
    pub data_directory: String,
    pub version: String,
}

/// What flipping the autostart switch asks for.
#[derive(Debug, Clone, Copy, PartialEq, Eq, Structural)]
pub enum AutoStartChange {
    /// Windows' own switch wins, and is not fought from here.
    Refused,
    Enable,
    Disable,
}

/// One entry of the language row. An empty value means "follow the system".
#[derive(Debug, PartialEq, Eq)]
pub struct LanguageOption {
    pub value: String,
    pub label: String,
}

/// What the language row says.
pub open spec fn is_option(
    words: Language,
    languages: Seq<Language>,
    index: int,
    option: LanguageOption,
) -> bool {
    if index == 0 {
        option.value@.len() == 0 && option.label@ == words.says(
            strings::SETTINGS_SYSTEM_DEFAULT as int,
        )
    } else {
        option.value@ == languages[index - 1].tag@ && option.label@ == languages[index - 1].name@
    }
}

/// The value of an entry of the language row.
pub open spec fn option_value(languages: Seq<Language>, index: int) -> Seq<char> {
    if index == 0 {
        Seq::empty()
    } else {
        languages[index - 1].tag@
    }
}

/// The stored tag, or nothing for "system".
pub open spec fn stored_value(settings: SettingsModel) -> Seq<char> {
    match settings.language {
        Some(tag) => tag,
        None => Seq::empty(),
    }
}

/// The entry at an index is the stored one.
pub open spec fn is_stored(languages: Seq<Language>, settings: SettingsModel) -> spec_fn(
    int,
) -> bool {
    |i: int| option_value(languages, i) == stored_value(settings)
}

/// Which entry is selected: the stored one, else the first.
pub open spec fn selected_option(languages: Seq<Language>, settings: SettingsModel) -> int {
    match search::first((languages.len() + 1) as nat, is_stored(languages, settings)) {
        Some(i) => i,
        None => 0,
    }
}

/// The tag an entry pins, or none for one that follows the system or is not there.
pub open spec fn pinned(languages: Seq<Language>, index: int) -> Option<Seq<char>> {
    if 1 <= index <= languages.len() && languages[index - 1].tag@.len() > 0 {
        Some(languages[index - 1].tag@)
    } else {
        None
    }
}

/// The text behind a reference, if any.
pub open spec fn tag_view(tag: Option<String>) -> Option<Seq<char>> {
    match tag {
        Some(t) => Some(t@),
        None => None,
    }
}

/// What the page shows.
#[derive(Debug, PartialEq, Eq)]
pub struct SettingsFace {
    pub languages: Vec<LanguageOption>,
    pub language: usize,
    pub starts_with_windows: bool,
    /// Windows has autostart switched off: the switch gives way to a warning.
    pub blocked_by_windows: bool,
    pub close_to_tray: bool,
    pub start_minimized: bool,
    pub data_directory: String,
    pub version: String,
}

impl SettingsView {
    /// The page over the settings. The autostart state comes from the registry: nothing about it
    /// is mirrored into the settings, so the two cannot disagree.
    pub fn new(
        settings: AppSettings,
        data_directory: &str,
        auto_start_state: AutoStartState,
        version: &str,
    ) -> (r: Self)
        ensures
            r.settings == settings,
            r.data_directory@ == data_directory@,
            r.auto_start_state == auto_start_state,
            r.version@ == version@,
    {
        SettingsView {
            settings,
            auto_start_state,
            data_directory: owned(data_directory),
            version: owned(version),
        }
    }

    /// What flipping the autostart switch asks for.
    pub fn toggle_auto_start(&self) -> (r: AutoStartChange)
        ensures
            r == match self.auto_start_state {
                AutoStartState::DisabledByWindows => AutoStartChange::Refused,
                AutoStartState::Enabled => AutoStartChange::Disable,
                AutoStartState::Disabled => AutoStartChange::Enable,
            },
    {
        match self.auto_start_state {
            AutoStartState::DisabledByWindows => AutoStartChange::Refused,
            AutoStartState::Enabled => AutoStartChange::Disable,
            AutoStartState::Disabled => AutoStartChange::Enable,
        }
    }

    /// Takes in what the registry says after a change. Re-read rather than assumed: it is the
    /// single source of truth.
    pub fn reread_auto_start(&mut self, state: AutoStartState)
        ensures
            *final(self) == (SettingsView { auto_start_state: state, ..*old(self) }),
    {
        self.auto_start_state = state;
    }

    /// Flips "close to tray", and returns the settings to keep.
    pub fn toggle_close_to_tray(&mut self) -> (r: AppSettings)
        ensures
            r@ == (SettingsModel {
                close_to_tray: !old(self).settings@.close_to_tray,
                ..old(self).settings@
            }),
            *final(self) == (SettingsView { settings: final(self).settings, ..*old(self) }),
            final(self).settings@ == r@,
    {
        self.settings.close_to_tray = !self.settings.close_to_tray;
        self.settings.copy()
    }

    /// Flips "start minimized", and returns the settings to keep.
    pub fn toggle_start_minimized(&mut self) -> (r: AppSettings)
        ensures
            r@ == (SettingsModel {
                start_minimized: !old(self).settings@.start_minimized,
                ..old(self).settings@
            }),
            *final(self) == (SettingsView { settings: final(self).settings, ..*old(self) }),
            final(self).settings@ == r@,
    {
        self.settings.start_minimized = !self.settings.start_minimized;
        self.settings.copy()
    }

    /// The language row's entries. Each language is listed in its own words; only "system default"
    /// is translated, because it is the only entry that is about the machine rather than a
    /// language.
    pub fn language_options(words: &Language, languages: &Vec<Language>) -> (r: Vec<
        LanguageOption,
    >)
        requires
            words.wf(),
        ensures
            r@.len() == languages@.len() + 1,
            forall|i: int|
                0 <= i < r@.len() ==> is_option(*words, languages@, i, #[trigger] r@[i]),
    {
        let mut options: Vec<LanguageOption> = Vec::new();
        options.push(
            LanguageOption {
                value: String::new(),
                label: owned(text(words, strings::SETTINGS_SYSTEM_DEFAULT)),
            },
        );
        let mut i: usize = 0;
        while i < languages.len()
            invariant
                i <= languages@.len(),
                options@.len() == i + 1,
                forall|k: int|
                    0 <= k < options@.len() ==> is_option(
                        *words,
                        languages@,
                        k,
                        #[trigger] options@[k],
                    ),
            decreases languages@.len() - i,
        {
            options.push(
                LanguageOption {
                    value: languages[i].tag.clone(),
                    label: languages[i].name.clone(),
                },
            );
            i = i + 1;
        }
        options
    }

    /// The value of the current setting: the stored tag, or empty for "system".
    pub fn language_value(&self) -> (r: String)
        ensures
            r@ == stored_value(self.settings@),
    {
        match &self.settings.language {
            Some(tag) => tag.clone(),
            None => String::new(),
        }
    }

    /// Which entry of the language row is selected.
    pub fn language_index(&self, languages: &Vec<Language>) -> (r: usize)
        ensures
            r == selected_option(languages@, self.settings@),
            r <= languages@.len(),
    {
        let current = self.language_value();
        let ghost holds = is_stored(languages@, self.settings@);
        let ghost n = (languages@.len() + 1) as nat;
        if current.as_str().is_empty() {
            proof {
                assert(stored_value(self.settings@) =~= Seq::empty());
                assert(holds(0));
                search::lemma_found(0, n, holds);
            }
            return 0;
        }
        proof {
            assert(!holds(0));
        }
        let mut i: usize = 0;
        while i < languages.len()
            invariant
                i <= languages@.len(),
                n == languages@.len() + 1,
                current@ == stored_value(self.settings@),
                holds == is_stored(languages@, self.settings@),
                forall|k: int| 0 <= k <= i ==> !(#[trigger] holds(k)),
            decreases languages@.len() - i,
        {
            let n_exec: usize = languages.len();
            assert(i < n_exec);
            if same_text(languages[i].tag.as_str(), current.as_str()) {
                proof {
                    assert(holds(i + 1));
                    search::lemma_found(i + 1, n, holds);
                }
                return i + 1;
            }
            proof {
                assert(!holds(i + 1));
            }
            i = i + 1;
        }
        proof {
            search::lemma_absent(n, holds);
        }
        0
    }

    /// Switches language immediately: no restart, no "apply". Returns the settings to keep, and
    /// whether every window has to be redrawn. `system` is the machine's own tag.
    pub fn choose_language(
        &mut self,
        tag: Option<String>,
        catalog: &mut Catalog,
        system: Option<&str>,
    ) -> (r: (AppSettings, bool))
        requires
            old(catalog).wf(),
        ensures
            final(catalog).wf(),
            final(catalog).languages == old(catalog).languages,
            final(catalog).active == i18n::chosen(
                old(catalog).languages@,
                tag_view(tag),
                i18n::tag_text(system),
            ),
            r.0@ == (SettingsModel { language: tag_view(tag), ..old(self).settings@ }),
            r.1 == (final(catalog).active != old(catalog).active),
            *final(self) == (SettingsView { settings: final(self).settings, ..*old(self) }),
            final(self).settings@ == r.0@,
    {
        let redraw = match &tag {
            Some(tag) => set_language(catalog, Some(tag.as_str()), system),
            None => set_language(catalog, None, system),
        };
        self.settings.language = tag;
        (self.settings.copy(), redraw)
    }

    /// Picks an entry of the language row.
    pub fn pick_language(
        &mut self,
        index: usize,
        catalog: &mut Catalog,
        system: Option<&str>,
    ) -> (r: (AppSettings, bool))
        requires
            old(catalog).wf(),
        ensures
            final(catalog).wf(),
            final(catalog).languages == old(catalog).languages,
            final(catalog).active == i18n::chosen(
                old(catalog).languages@,
                pinned(old(catalog).languages@, index as int),
                i18n::tag_text(system),
            ),
            r.0@ == (SettingsModel {
                language: pinned(old(catalog).languages@, index as int),
                ..old(self).settings@
            }),
            r.1 == (final(catalog).active != old(catalog).active),
            *final(self) == (SettingsView { settings: final(self).settings, ..*old(self) }),
            final(self).settings@ == r.0@,
    {
        let tag = if index >= 1 && index - 1 < catalog.languages.len()
            && !catalog.languages[index - 1].tag.as_str().is_empty() {
            Some(catalog.languages[index - 1].tag.clone())
        } else {
            None
        };
        self.choose_language(tag, catalog, system)
    }

    /// What the page shows.
    pub fn face(&self, words: &Language, languages: &Vec<Language>) -> (r: SettingsFace)
        requires
            words.wf(),
        ensures
            r.languages@.len() == languages@.len() + 1,
            forall|i: int|
                0 <= i < r.languages@.len() ==> is_option(
                    *words,
                    languages@,
                    i,
                    #[trigger] r.languages@[i],
                ),
            r.language == selected_option(languages@, self.settings@),
            r.starts_with_windows == (self.auto_start_state is Enabled),
            r.blocked_by_windows == (self.auto_start_state is DisabledByWindows),
            r.close_to_tray == self.settings@.close_to_tray,
            r.start_minimized == self.settings@.start_minimized,
            r.data_directory@ == self.data_directory@,
            r.version@ == i18n::said1(
                *words,
                strings::SETTINGS_VERSION_FORMAT as int,
                self.version@,
            ),
    {
        SettingsFace {
            languages: SettingsView::language_options(words, languages),
            language: self.language_index(languages),
            starts_with_windows: self.auto_start_state == AutoStartState::Enabled,
            blocked_by_windows: self.auto_start_state == AutoStartState::DisabledByWindows,
            close_to_tray: self.settings.close_to_tray,
            start_minimized: self.settings.start_minimized,
            data_directory: self.data_directory.clone(),
            version: say1(words, strings::SETTINGS_VERSION_FORMAT, self.version.as_str()),
        }
    }
}

/// A language that was picked is the one selected when the page is opened again. The languages
/// have tags of their own.
pub proof fn law_a_picked_language_stays_picked(
    languages: Seq<Language>,
    settings: SettingsModel,
    index: int,
)
    requires
        0 <= index <= languages.len(),
        forall|i: int| 0 <= i < languages.len() ==> (#[trigger] languages[i]).tag@.len() > 0,
        forall|i: int, j: int|
            0 <= i < j < languages.len() ==> (#[trigger] languages[i]).tag@ != (
            #[trigger] languages[j]).tag@,
        settings.language == pinned(languages, index),
    ensures
        selected_option(languages, settings) == index,
{
    let n = (languages.len() + 1) as nat;
    let holds = is_stored(languages, settings);
    assert(holds(index));
    assert forall|k: int| 0 <= k < index implies !(#[trigger] holds(k)) by {
        if k > 0 {
            assert(languages[k - 1].tag@ != languages[index - 1].tag@);
        } else {
            assert(languages[index - 1].tag@.len() > 0);
        }
    }
    search::lemma_found(index, n, holds);
}

} // verus!
