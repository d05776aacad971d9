//! User settings — the single on-disk artifact.
//!
//! Settings are stored as a flat TOML table. Loading is **defensive**: it never
//! fails. Text that is not TOML loads as the defaults. Otherwise each known key is
//! read on its own, and a field whose key is missing, or holds a value of the wrong
//! type (a string or a float where a number is expected, say) or a negative number,
//! falls back to its default while the other fields keep what the file says.
//! Unknown keys are ignored; thresholds are clamped to `MAX_THRESHOLD_MS`, however
//! large the stored number; a stored panic hotkey that does not parse to a valid
//! chord falls back to the default chord.

use vstd::prelude::*;
use vstd::std_specs::cmp::PartialEqSpecImpl;

use crate::pure_core::debouncer::Thresholds;
use crate::pure_core::event::KeyCode;
use crate::pure_core::hotkey::{self, display_spec, parse_spec, ParseOutcome};
use crate::pure_core::hotkey_round_trip::{lemma_display_parse_round_trip, nameable};
use crate::pure_core::mode::Mode;
use crate::pure_core::panic::{chord_wf, is_canonical_of, lemma_canonical_unique, PanicChord};
use crate::toml_table::{
    all_scalar, entry_at, new_table, ordered_entries, parse_table, table_entries, table_get,
    table_insert, table_keys, table_to_string, toml_document, toml_text, TomlEntry, TomlField,
    TomlScalar,
};

verus! {

/// The hard cap applied to both thresholds, so a hand-edited config can't turn
/// Bouncer into an input black hole.
pub const MAX_THRESHOLD_MS: u8 = 100;

#[derive(Debug)]
pub struct Config {
    pub keyboard_threshold_ms: u8,
    pub mouse_threshold_ms: u8,
    /// `false` == Paused (persisted pass-through).
    pub enabled: bool,
    pub debounce_keyboard: bool,
    pub debounce_mouse: bool,
    pub autostart: bool,
    /// The panic chord, validated. Stored typed; on disk it is a hotkey string
    /// like `Ctrl+Alt+Shift+F12`.
    pub panic_hotkey: PanicChord,
    pub confirm_on_quit: bool,
}

/// The value of a [`Config`], with the chord as its key list.
#[verifier::ext_equal]
pub struct ConfigView {
    pub keyboard_threshold_ms: u8,
    pub mouse_threshold_ms: u8,
    pub enabled: bool,
    pub debounce_keyboard: bool,
    pub debounce_mouse: bool,
    pub autostart: bool,
    pub panic_hotkey: Seq<KeyCode>,
    pub confirm_on_quit: bool,
}

impl View for Config {
    type V = ConfigView;

    open spec fn view(&self) -> ConfigView {
        ConfigView {
            keyboard_threshold_ms: self.keyboard_threshold_ms,
            mouse_threshold_ms: self.mouse_threshold_ms,
            enabled: self.enabled,
            debounce_keyboard: self.debounce_keyboard,
            debounce_mouse: self.debounce_mouse,
            autostart: self.autostart,
            panic_hotkey: self.panic_hotkey@,
            confirm_on_quit: self.confirm_on_quit,
        }
    }
}

/// The factory settings: keyboard 30 ms, mouse 40 ms, enabled, both device
/// classes debounced, start on login, Ctrl+Alt+Shift+F12, confirm on quit.
pub open spec fn default_config() -> ConfigView {
    ConfigView {
        keyboard_threshold_ms: 30,
        mouse_threshold_ms: 40,
        enabled: true,
        debounce_keyboard: true,
        debounce_mouse: true,
        autostart: true,
        panic_hotkey: PanicChord::default_chord_keys(),
        confirm_on_quit: true,
    }
}

impl Default for Config {
    fn default() -> (c: Self)
        ensures
            c@ == default_config(),
    {
        Config {
            keyboard_threshold_ms: 30,
            mouse_threshold_ms: 40,
            enabled: true,
            debounce_keyboard: true,
            debounce_mouse: true,
            autostart: true,
            panic_hotkey: PanicChord::default_chord(),
            confirm_on_quit: true,
        }
    }
}

impl Clone for Config {
    fn clone(&self) -> (c: Self)
        ensures
            c@ == self@,
    {
        Config {
            keyboard_threshold_ms: self.keyboard_threshold_ms,
            mouse_threshold_ms: self.mouse_threshold_ms,
            enabled: self.enabled,
            debounce_keyboard: self.debounce_keyboard,
            debounce_mouse: self.debounce_mouse,
            autostart: self.autostart,
            panic_hotkey: self.panic_hotkey.clone(),
            confirm_on_quit: self.confirm_on_quit,
        }
    }
}

impl PartialEq for Config {
    fn eq(&self, other: &Self) -> (r: bool) {
        let r = self.keyboard_threshold_ms == other.keyboard_threshold_ms
            && self.mouse_threshold_ms == other.mouse_threshold_ms && self.enabled
            == other.enabled && self.debounce_keyboard == other.debounce_keyboard
            && self.debounce_mouse == other.debounce_mouse && self.autostart == other.autostart
            && self.confirm_on_quit == other.confirm_on_quit && self.panic_hotkey
            == other.panic_hotkey;
        proof {
            if r {
                assert(self@ =~= other@);
            }
        }
        r
    }
}

impl PartialEqSpecImpl for Config {
    open spec fn obeys_eq_spec() -> bool {
        true
    }

    open spec fn eq_spec(&self, other: &Config) -> bool {
        self@ == other@
    }
}

impl Eq for Config {

}

// ---------------------------------------------------------------------------
// The on-disk form
// ---------------------------------------------------------------------------

/// Reading a threshold setting: a non-negative integer, clamped to
/// `MAX_THRESHOLD_MS` however large it is. `None` (the field takes its default) when
/// the key is absent, or holds a negative number or a value that is not an integer.
pub open spec fn threshold_setting(entries: Map<Seq<char>, TomlEntry>, key: Seq<char>) -> Option<u8> {
    match entry_at(entries, key) {
        Some(TomlEntry::Integer(i)) => if i < 0 {
            None
        } else if i <= MAX_THRESHOLD_MS {
            Some(i as u8)
        } else {
            Some(MAX_THRESHOLD_MS)
        },
        _ => None,
    }
}

/// Reading a boolean setting: `None` (the field takes its default) when the key is
/// absent or its value is not a boolean.
pub open spec fn bool_setting(entries: Map<Seq<char>, TomlEntry>, key: Seq<char>) -> Option<bool> {
    match entry_at(entries, key) {
        Some(TomlEntry::Boolean(b)) => Some(b),
        _ => None,
    }
}

/// Reading a string setting: `None` when the key is absent or its value is not a
/// string.
pub open spec fn text_setting(entries: Map<Seq<char>, TomlEntry>, key: Seq<char>) -> Option<Seq<char>> {
    match entry_at(entries, key) {
        Some(TomlEntry::Text(t)) => Some(t),
        _ => None,
    }
}

/// The chord key list holding exactly the given keys, in index order.
pub open spec fn canonical_keys(keys: Seq<KeyCode>) -> Seq<KeyCode> {
    choose|s: Seq<KeyCode>| is_canonical_of(s, keys)
}

/// The chord a stored hotkey string stands for: the parsed chord, or the default
/// chord when the string is absent, does not parse, or is not a valid chord.
pub open spec fn chord_from_text(text: Option<Seq<char>>) -> Seq<KeyCode> {
    match text {
        Some(s) => match parse_spec(s) {
            ParseOutcome::Chord(ks) => canonical_keys(ks),
            _ => PanicChord::default_chord_keys(),
        },
        None => PanicChord::default_chord_keys(),
    }
}

/// The settings a table holds: each known key read on its own, a field whose key
/// is absent or unusable taking its default; unknown keys are ignored.
pub open spec fn settings_from_entries(m: Map<Seq<char>, TomlEntry>) -> ConfigView {
    let d = default_config();
    ConfigView {
        keyboard_threshold_ms: threshold_setting(m, "keyboard_threshold_ms"@).unwrap_or(
            d.keyboard_threshold_ms,
        ),
        mouse_threshold_ms: threshold_setting(m, "mouse_threshold_ms"@).unwrap_or(
            d.mouse_threshold_ms,
        ),
        enabled: bool_setting(m, "enabled"@).unwrap_or(d.enabled),
        debounce_keyboard: bool_setting(m, "debounce_keyboard"@).unwrap_or(d.debounce_keyboard),
        debounce_mouse: bool_setting(m, "debounce_mouse"@).unwrap_or(d.debounce_mouse),
        autostart: bool_setting(m, "autostart"@).unwrap_or(d.autostart),
        panic_hotkey: chord_from_text(text_setting(m, "panic_hotkey"@)),
        confirm_on_quit: bool_setting(m, "confirm_on_quit"@).unwrap_or(d.confirm_on_quit),
    }
}

/// The settings a TOML document loads as: the defaults when the text is not TOML,
/// otherwise [`settings_from_entries`] of its table.
pub open spec fn settings_from_document(doc: Option<Map<Seq<char>, TomlEntry>>) -> ConfigView {
    match doc {
        None => default_config(),
        Some(m) => settings_from_entries(m),
    }
}

/// The table settings are written as: every field under its name, the thresholds
/// as integers and the chord as its hotkey string.
pub open spec fn settings_entries(c: ConfigView) -> Map<Seq<char>, TomlEntry> {
    Map::<Seq<char>, TomlEntry>::empty().insert(
        "keyboard_threshold_ms"@,
        TomlEntry::Integer(c.keyboard_threshold_ms as i64),
    ).insert("mouse_threshold_ms"@, TomlEntry::Integer(c.mouse_threshold_ms as i64)).insert(
        "enabled"@,
        TomlEntry::Boolean(c.enabled),
    ).insert("debounce_keyboard"@, TomlEntry::Boolean(c.debounce_keyboard)).insert(
        "debounce_mouse"@,
        TomlEntry::Boolean(c.debounce_mouse),
    ).insert("autostart"@, TomlEntry::Boolean(c.autostart)).insert(
        "panic_hotkey"@,
        TomlEntry::Text(display_spec(c.panic_hotkey)),
    ).insert("confirm_on_quit"@, TomlEntry::Boolean(c.confirm_on_quit))
}

/// The settings as written, field by field in declaration order: the thresholds as
/// integers and the chord as its hotkey string.
pub open spec fn settings_fields(c: ConfigView) -> Seq<(Seq<char>, TomlEntry)> {
    seq![
        ("keyboard_threshold_ms"@, TomlEntry::Integer(c.keyboard_threshold_ms as i64)),
        ("mouse_threshold_ms"@, TomlEntry::Integer(c.mouse_threshold_ms as i64)),
        ("enabled"@, TomlEntry::Boolean(c.enabled)),
        ("debounce_keyboard"@, TomlEntry::Boolean(c.debounce_keyboard)),
        ("debounce_mouse"@, TomlEntry::Boolean(c.debounce_mouse)),
        ("autostart"@, TomlEntry::Boolean(c.autostart)),
        ("panic_hotkey"@, TomlEntry::Text(display_spec(c.panic_hotkey))),
        ("confirm_on_quit"@, TomlEntry::Boolean(c.confirm_on_quit)),
    ]
}

fn read_threshold(t: &toml::Table, key: &str) -> (r: Option<u8>)
    ensures
        r == threshold_setting(table_entries(*t), key@),
{
    match table_get(t, key) {
        TomlField::Integer(i) => if i < 0 {
            None
        } else if i <= MAX_THRESHOLD_MS as i64 {
            Some(i as u8)
        } else {
            Some(MAX_THRESHOLD_MS)
        },
        _ => None,
    }
}

fn read_bool(t: &toml::Table, key: &str) -> (r: Option<bool>)
    ensures
        r == bool_setting(table_entries(*t), key@),
{
    match table_get(t, key) {
        TomlField::Boolean(b) => Some(b),
        _ => None,
    }
}

fn read_text(t: &toml::Table, key: &str) -> (r: Option<String>)
    ensures
        match (r, text_setting(table_entries(*t), key@)) {
            (None, None) => true,
            (Some(s), Some(v)) => s@ == v,
            _ => false,
        },
{
    match table_get(t, key) {
        TomlField::Text(s) => Some(s),
        _ => None,
    }
}

fn value_or<T: Copy>(v: Option<T>, d: T) -> (r: T)
    ensures
        r == v.unwrap_or(d),
{
    match v {
        Some(x) => x,
        None => d,
    }
}

/// The chord a stored hotkey string stands for (see [`chord_from_text`]).
fn chord_from_setting(text: Option<String>) -> (c: PanicChord)
    ensures
        c@ == chord_from_text(
            match text {
                Some(s) => Some(s@),
                None => None,
            },
        ),
{
    match text {
        Some(s) => match hotkey::parse(s.as_str()) {
            Ok(c) => {
                proof {
                    let ks = parse_spec(s@)->Chord_0;
                    assert(is_canonical_of(c@, ks));
                    let chosen = canonical_keys(ks);
                    assert(is_canonical_of(chosen, ks));
                    lemma_canonical_unique(c@, chosen);
                }
                c
            },
            Err(_) => PanicChord::default_chord(),
        },
        None => PanicChord::default_chord(),
    }
}

impl Config {
    /// Parse settings from a TOML string. **Defensive**: never fails (see the
    /// module documentation for how each kind of bad input loads).
    pub fn load_from_str(toml: &str) -> (c: Config)
        ensures
            c@ == settings_from_document(toml_document(toml@)),
    {
        match parse_table(toml) {
            Some(table) => Config::from_table(&table),
            None => Config::default(),
        }
    }

    /// The settings a parsed TOML table holds: each known key read on its own, a
    /// field whose key is absent or unusable taking its default (see
    /// [`settings_from_entries`]).
    pub fn from_table(table: &toml::Table) -> (c: Config)
        ensures
            c@ == settings_from_entries(table_entries(*table)),
    {
        let c = Config {
            keyboard_threshold_ms: value_or(read_threshold(table, "keyboard_threshold_ms"), 30),
            mouse_threshold_ms: value_or(read_threshold(table, "mouse_threshold_ms"), 40),
            enabled: value_or(read_bool(table, "enabled"), true),
            debounce_keyboard: value_or(read_bool(table, "debounce_keyboard"), true),
            debounce_mouse: value_or(read_bool(table, "debounce_mouse"), true),
            autostart: value_or(read_bool(table, "autostart"), true),
            panic_hotkey: chord_from_setting(read_text(table, "panic_hotkey")),
            confirm_on_quit: value_or(read_bool(table, "confirm_on_quit"), true),
        };
        assert(c@ =~= settings_from_entries(table_entries(*table)));
        c
    }

    /// Serialize to a TOML string suitable for writing to disk: the TOML text of
    /// every field in declaration order ([`settings_fields`]), which parses back to
    /// exactly [`settings_entries`] of these settings.
    pub fn to_toml_string(&self) -> (s: String)
        ensures
            s@ == toml_text(settings_fields(self@)),
            toml_document(s@) == Some(settings_entries(self@)),
    {
        proof {
            // The eight keys are told apart by their lengths.
            reveal_strlit("keyboard_threshold_ms");
            reveal_strlit("mouse_threshold_ms");
            reveal_strlit("enabled");
            reveal_strlit("debounce_keyboard");
            reveal_strlit("debounce_mouse");
            reveal_strlit("autostart");
            reveal_strlit("panic_hotkey");
            reveal_strlit("confirm_on_quit");
            assert("keyboard_threshold_ms"@.len() == 21);
            assert("mouse_threshold_ms"@.len() == 18);
            assert("enabled"@.len() == 7);
            assert("debounce_keyboard"@.len() == 17);
            assert("debounce_mouse"@.len() == 14);
            assert("autostart"@.len() == 9);
            assert("panic_hotkey"@.len() == 12);
            assert("confirm_on_quit"@.len() == 15);
        }
        let mut t = new_table();
        table_insert(
            &mut t,
            "keyboard_threshold_ms",
            TomlScalar::Integer(self.keyboard_threshold_ms as i64),
        );
        assert(table_keys(t) =~= seq!["keyboard_threshold_ms"@]);
        table_insert(&mut t, "mouse_threshold_ms", TomlScalar::Integer(self.mouse_threshold_ms as i64));
        assert(table_keys(t) =~= seq!["keyboard_threshold_ms"@, "mouse_threshold_ms"@]);
        table_insert(&mut t, "enabled", TomlScalar::Boolean(self.enabled));
        assert(table_keys(t) =~= seq!["keyboard_threshold_ms"@, "mouse_threshold_ms"@, "enabled"@]);
        table_insert(&mut t, "debounce_keyboard", TomlScalar::Boolean(self.debounce_keyboard));
        assert(table_keys(t) =~= seq![
            "keyboard_threshold_ms"@,
            "mouse_threshold_ms"@,
            "enabled"@,
            "debounce_keyboard"@,
        ]);
        table_insert(&mut t, "debounce_mouse", TomlScalar::Boolean(self.debounce_mouse));
        assert(table_keys(t) =~= seq![
            "keyboard_threshold_ms"@,
            "mouse_threshold_ms"@,
            "enabled"@,
            "debounce_keyboard"@,
            "debounce_mouse"@,
        ]);
        table_insert(&mut t, "autostart", TomlScalar::Boolean(self.autostart));
        assert(table_keys(t) =~= seq![
            "keyboard_threshold_ms"@,
            "mouse_threshold_ms"@,
            "enabled"@,
            "debounce_keyboard"@,
            "debounce_mouse"@,
            "autostart"@,
        ]);
        let hotkey_text = hotkey::display(self.panic_hotkey.keys().as_slice());
        table_insert(&mut t, "panic_hotkey", TomlScalar::Text(hotkey_text));
        assert(table_keys(t) =~= seq![
            "keyboard_threshold_ms"@,
            "mouse_threshold_ms"@,
            "enabled"@,
            "debounce_keyboard"@,
            "debounce_mouse"@,
            "autostart"@,
            "panic_hotkey"@,
        ]);
        table_insert(&mut t, "confirm_on_quit", TomlScalar::Boolean(self.confirm_on_quit));
        assert(table_keys(t) =~= seq![
            "keyboard_threshold_ms"@,
            "mouse_threshold_ms"@,
            "enabled"@,
            "debounce_keyboard"@,
            "debounce_mouse"@,
            "autostart"@,
            "panic_hotkey"@,
            "confirm_on_quit"@,
        ]);
        assert(table_entries(t) =~= settings_entries(self@));
        assert(all_scalar(table_entries(t)));
        assert(ordered_entries(t) =~= settings_fields(self@));
        table_to_string(&t)
    }

    /// The engine [`Thresholds`] these settings imply. A disabled device class maps
    /// to a 0 ms threshold (never suppresses).
    pub fn thresholds(&self) -> (t: Thresholds)
        ensures
            t.keyboard_ms == (if self.debounce_keyboard { self.keyboard_threshold_ms } else { 0 }),
            t.mouse_ms == (if self.debounce_mouse { self.mouse_threshold_ms } else { 0 }),
    {
        Thresholds {
            keyboard_ms: if self.debounce_keyboard {
                self.keyboard_threshold_ms
            } else {
                0
            },
            mouse_ms: if self.debounce_mouse {
                self.mouse_threshold_ms
            } else {
                0
            },
        }
    }

    /// The [`Mode`] the engine should start in: `Active` when protection is enabled,
    /// `Paused` when the user left it off. Never `Panic`: Panic is not persisted.
    pub fn initial_mode(&self) -> (m: Mode)
        ensures
            m == (if self.enabled { Mode::Active } else { Mode::Paused }),
            m != Mode::Panic,
    {
        if self.enabled {
            Mode::Active
        } else {
            Mode::Paused
        }
    }
}

/// Settings written with [`Config::to_toml_string`] load back unchanged, for
/// settings whose thresholds are within the cap and whose chord keys all have
/// parseable names.
pub proof fn lemma_settings_round_trip(c: ConfigView)
    requires
        c.keyboard_threshold_ms <= MAX_THRESHOLD_MS,
        c.mouse_threshold_ms <= MAX_THRESHOLD_MS,
        chord_wf(c.panic_hotkey),
        forall|i: int| 0 <= i < c.panic_hotkey.len() ==> nameable(#[trigger] c.panic_hotkey[i]),
    ensures
        settings_from_document(Some(settings_entries(c))) == c,
{
    reveal_strlit("keyboard_threshold_ms");
    reveal_strlit("mouse_threshold_ms");
    reveal_strlit("enabled");
    reveal_strlit("debounce_keyboard");
    reveal_strlit("debounce_mouse");
    reveal_strlit("autostart");
    reveal_strlit("panic_hotkey");
    reveal_strlit("confirm_on_quit");
    let m = settings_entries(c);
    assert("keyboard_threshold_ms"@.len() == 21);
    assert("mouse_threshold_ms"@.len() == 18);
    assert("enabled"@.len() == 7);
    assert("debounce_keyboard"@.len() == 17);
    assert("debounce_mouse"@.len() == 14);
    assert("autostart"@.len() == 9);
    assert("panic_hotkey"@.len() == 12);
    assert("confirm_on_quit"@.len() == 15);
    assert(threshold_setting(m, "keyboard_threshold_ms"@) == Some(c.keyboard_threshold_ms));
    assert(threshold_setting(m, "mouse_threshold_ms"@) == Some(c.mouse_threshold_ms));
    assert(bool_setting(m, "enabled"@) == Some(c.enabled));
    assert(bool_setting(m, "debounce_keyboard"@) == Some(c.debounce_keyboard));
    assert(bool_setting(m, "debounce_mouse"@) == Some(c.debounce_mouse));
    assert(bool_setting(m, "autostart"@) == Some(c.autostart));
    assert(text_setting(m, "panic_hotkey"@) == Some(display_spec(c.panic_hotkey)));
    assert(bool_setting(m, "confirm_on_quit"@) == Some(c.confirm_on_quit));
    lemma_display_parse_round_trip(c.panic_hotkey);
    let ks = parse_spec(display_spec(c.panic_hotkey))->Chord_0;
    let chosen = canonical_keys(ks);
    assert(is_canonical_of(chosen, ks));
    lemma_canonical_unique(c.panic_hotkey, chosen);
    assert(settings_from_document(Some(m)) =~= c);
}

} // verus!
