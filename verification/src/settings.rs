//! User settings: the theme, automatic updates and launch at login, their
//! `key=value` file format, and the decisions taken while loading them.
use vstd::prelude::*;
use crate::text::{
    chars_of, chars_eq, copy_range, eq_ignore_ascii_case, eq_ignore_ascii_case_chars, lines_chars,
    lines_of, trim, trim_chars,
};

verus! {

/// The colour theme.
#[derive(Clone, Copy, Debug, PartialEq, Eq, Structural)]
pub enum Theme {
    Dark,
    Light,
}

/// The name a theme has in the settings file.
pub open spec fn theme_key(theme: Theme) -> Seq<char> {
    match theme {
        Theme::Dark => "dark"@,
        Theme::Light => "light"@,
    }
}

/// `Theme::from_key`: "light" in any ASCII case is the light theme,
/// anything else the dark one.
pub open spec fn theme_from_key(value: Seq<char>) -> Theme {
    if eq_ignore_ascii_case(value, "light"@) {
        Theme::Light
    } else {
        Theme::Dark
    }
}

/// The other theme.
pub open spec fn theme_toggled(theme: Theme) -> Theme {
    match theme {
        Theme::Dark => Theme::Light,
        Theme::Light => Theme::Dark,
    }
}

fn theme_from_chars(value: &Vec<char>) -> (r: Theme)
    ensures
        r == theme_from_key(value@),
{
    let light = chars_of("light");
    if eq_ignore_ascii_case_chars(value, &light) {
        Theme::Light
    } else {
        Theme::Dark
    }
}

impl Theme {
    /// The settings-file name of the theme.
    pub fn key(self) -> (r: &'static str)
        ensures
            r@ == theme_key(self),
    {
        match self {
            Theme::Dark => "dark",
            Theme::Light => "light",
        }
    }

    /// Reads a theme name (see `theme_from_key`).
    pub fn from_key(value: &str) -> (r: Theme)
        ensures
            r == theme_from_key(value@),
    {
        theme_from_chars(&chars_of(value))
    }

    /// The other theme.
    pub fn toggle(self) -> (r: Theme)
        ensures
            r == theme_toggled(self),
    {
        match self {
            Theme::Dark => Theme::Light,
            Theme::Light => Theme::Dark,
        }
    }
}

/// The persisted user settings.
#[derive(Clone, Copy, Debug, PartialEq, Eq, Structural)]
pub struct Settings {
    pub theme: Theme,
    pub auto_update: bool,
    pub autostart: bool,
}

/// Dark theme, automatic updates on, launch at login on.
pub open spec fn default_settings() -> Settings {
    Settings { theme: Theme::Dark, auto_update: true, autostart: true }
}

impl Default for Settings {
    fn default() -> (r: Settings)
        ensures
            r == default_settings(),
    {
        Settings { theme: Theme::Dark, auto_update: true, autostart: true }
    }
}

/// `parse_bool`: the trimmed value is "true", "1", "yes" or "on".
pub open spec fn parse_bool_spec(value: Seq<char>) -> bool {
    let t = trim(value);
    t == "true"@ || t == "1"@ || t == "yes"@ || t == "on"@
}

fn parse_bool_chars(value: &Vec<char>) -> (r: bool)
    ensures
        r == parse_bool_spec(value@),
{
    let t = trim_chars(value);
    chars_eq(&t, &chars_of("true")) || chars_eq(&t, &chars_of("1")) || chars_eq(
        &t,
        &chars_of("yes"),
    ) || chars_eq(&t, &chars_of("on"))
}

/// Reads a boolean setting value.
pub fn parse_bool(value: &str) -> (r: bool)
    ensures
        r == parse_bool_spec(value@),
{
    parse_bool_chars(&chars_of(value))
}

/// The settings read from a file, and whether it named `autostart`.
#[derive(Clone, Copy, Debug, PartialEq, Eq, Structural)]
pub struct LoadedSettings {
    pub settings: Settings,
    pub saw_autostart_key: bool,
}

/// Index of the first `c` in `s`, or -1.
pub open spec fn first_index_of(s: Seq<char>, c: char) -> int
    decreases s.len(),
{
    if s.len() == 0 {
        -1
    } else {
        let before = first_index_of(s.drop_last(), c);
        if before >= 0 {
            before
        } else if s.last() == c {
            s.len() - 1
        } else {
            -1
        }
    }
}

/// The effect of one line of the settings file: `key=value` with a known
/// key (compared after trimming) sets that setting; other lines change
/// nothing.
pub open spec fn apply_setting_line(acc: LoadedSettings, line: Seq<char>) -> LoadedSettings {
    let at = first_index_of(line, '=');
    if at < 0 {
        acc
    } else {
        let key = trim(line.take(at));
        let value = line.skip(at + 1);
        if key == "theme"@ {
            LoadedSettings {
                settings: Settings { theme: theme_from_key(trim(value)), ..acc.settings },
                ..acc
            }
        } else if key == "auto_update"@ {
            LoadedSettings {
                settings: Settings { auto_update: parse_bool_spec(value), ..acc.settings },
                ..acc
            }
        } else if key == "autostart"@ {
            LoadedSettings {
                settings: Settings { autostart: parse_bool_spec(value), ..acc.settings },
                saw_autostart_key: true,
            }
        } else {
            acc
        }
    }
}

/// Applies the lines in order, starting from the defaults.
pub open spec fn apply_setting_lines(lines: Seq<Seq<char>>) -> LoadedSettings
    decreases lines.len(),
{
    if lines.len() == 0 {
        LoadedSettings { settings: default_settings(), saw_autostart_key: false }
    } else {
        apply_setting_line(apply_setting_lines(lines.drop_last()), lines.last())
    }
}

/// What a settings file says.
pub open spec fn parse_settings_spec(text: Seq<char>) -> LoadedSettings {
    apply_setting_lines(lines_of(text))
}

fn first_eq_index(line: &Vec<char>) -> (r: Option<usize>)
    ensures
        match r {
            Some(i) => i < line@.len() && first_index_of(line@, '=') == i,
            None => first_index_of(line@, '=') == -1,
        },
{
    let mut i: usize = 0;
    while i < line.len()
        invariant
            i <= line.len(),
            first_index_of(line@.take(i as int), '=') == -1,
        decreases line.len() - i,
    {
        proof {
            assert(line@.take(i as int + 1).drop_last() =~= line@.take(i as int));
        }
        if line[i] == '=' {
            proof {
                lemma_first_index_prefix(line@, i as int + 1);
            }
            return Some(i);
        }
        i += 1;
    }
    proof {
        assert(line@.take(line.len() as int) =~= line@);
    }
    None
}

/// The first occurrence within a prefix is the first occurrence overall.
proof fn lemma_first_index_prefix(s: Seq<char>, n: int)
    requires
        0 <= n <= s.len(),
        first_index_of(s.take(n), '=') >= 0,
    ensures
        first_index_of(s, '=') == first_index_of(s.take(n), '='),
    decreases s.len() - n,
{
    if n < s.len() {
        assert(s.drop_last().take(n) =~= s.take(n));
        lemma_first_index_prefix(s.drop_last(), n);
    } else {
        assert(s.take(n) =~= s);
    }
}

fn apply_line_exec(acc: LoadedSettings, line: &Vec<char>) -> (r: LoadedSettings)
    ensures
        r == apply_setting_line(acc, line@),
{
    let at = match first_eq_index(line) {
        Some(i) => i,
        None => {
            return acc;
        },
    };
    let key = trim_chars(&copy_range(line, 0, at));
    let value = copy_range(line, at + 1, line.len());
    proof {
        assert(line@.subrange(0, at as int) =~= line@.take(at as int));
        assert(line@.subrange(at + 1, line@.len() as int) =~= line@.skip(at + 1));
    }
    let mut out = acc;
    if chars_eq(&key, &chars_of("theme")) {
        out.settings.theme = theme_from_chars(&trim_chars(&value));
    } else if chars_eq(&key, &chars_of("auto_update")) {
        out.settings.auto_update = parse_bool_chars(&value);
    } else if chars_eq(&key, &chars_of("autostart")) {
        out.settings.autostart = parse_bool_chars(&value);
        out.saw_autostart_key = true;
    }
    out
}

/// Parses the text of the settings file; an absent file reads as "".
pub fn parse_settings_text(text: &str) -> (r: LoadedSettings)
    ensures
        r == parse_settings_spec(text@),
{
    let lines = lines_chars(&chars_of(text));
    let mut acc = LoadedSettings { settings: Settings::default(), saw_autostart_key: false };
    let mut i: usize = 0;
    while i < lines.len()
        invariant
            i <= lines@.len(),
            lines@.len() == lines_of(text@).len(),
            forall|k: int| 0 <= k < lines@.len() ==> #[trigger] lines@[k]@ == lines_of(text@)[k],
            acc == apply_setting_lines(lines_of(text@).take(i as int)),
        decreases lines.len() - i,
    {
        proof {
            let all = lines_of(text@);
            assert(all.take(i as int + 1).drop_last() =~= all.take(i as int));
        }
        acc = apply_line_exec(acc, &lines[i]);
        i += 1;
    }
    proof {
        assert(lines_of(text@).take(lines@.len() as int) =~= lines_of(text@));
    }
    acc
}

/// Settings files written before launch at login existed lack the
/// `autostart` key; such an install gets the login entry created once.
pub open spec fn autostart_migration_spec(loaded: LoadedSettings) -> bool {
    !loaded.saw_autostart_key && loaded.settings.autostart
}

impl LoadedSettings {
    /// Whether the login entry must be created before reading it back.
    pub fn needs_autostart_migration(&self) -> (r: bool)
        ensures
            r == autostart_migration_spec(*self),
    {
        !self.saw_autostart_key && self.settings.autostart
    }

    /// The settings in effect once the registry has been read back (the
    /// registry decides `autostart`), and whether the file must be written
    /// again (when it lacked the `autostart` key).
    pub fn settle(self, registry_autostart: bool) -> (r: (Settings, bool))
        ensures
            r.0 == (Settings { autostart: registry_autostart, ..self.settings }),
            r.1 == !self.saw_autostart_key,
    {
        let mut settings = self.settings;
        settings.autostart = registry_autostart;
        (settings, !self.saw_autostart_key)
    }
}

/// The text of a boolean in the settings file.
pub open spec fn bool_text(value: bool) -> Seq<char> {
    if value {
        "true"@
    } else {
        "false"@
    }
}

/// The settings file: one `key=value` line per setting.
pub open spec fn settings_text_spec(settings: Settings) -> Seq<char> {
    "theme="@ + theme_key(settings.theme) + "\nauto_update="@ + bool_text(settings.auto_update)
        + "\nautostart="@ + bool_text(settings.autostart) + "\n"@
}

fn bool_str(value: bool) -> (r: &'static str)
    ensures
        r@ == bool_text(value),
{
    if value {
        "true"
    } else {
        "false"
    }
}

/// The text written to the settings file.
pub fn settings_text(settings: Settings) -> (r: String)
    ensures
        r@ == settings_text_spec(settings),
{
    let mut out = String::from_str("theme=");
    out.append(settings.theme.key());
    out.append("\nauto_update=");
    out.append(bool_str(settings.auto_update));
    out.append("\nautostart=");
    out.append(bool_str(settings.autostart));
    out.append("\n");
    out
}

/// A copy of the settings.
pub fn get(settings: &Settings) -> (r: Settings)
    ensures
        r == *settings,
{
    *settings
}

/// Switches to the other theme and returns it.
pub fn toggle_theme(settings: &mut Settings) -> (r: Theme)
    ensures
        r == theme_toggled(old(settings).theme),
        *final(settings) == (Settings { theme: r, ..*old(settings) }),
{
    settings.theme = settings.theme.toggle();
    settings.theme
}

/// Turns automatic updates on or off.
pub fn set_auto_update(settings: &mut Settings, value: bool)
    ensures
        *final(settings) == (Settings { auto_update: value, ..*old(settings) }),
{
    settings.auto_update = value;
}

/// Records launch at login once the registry has been changed; when the
/// registry change failed (`registry_ok` false) nothing changes and the
/// answer is false.
pub fn set_autostart(settings: &mut Settings, value: bool, registry_ok: bool) -> (r: bool)
    ensures
        r == registry_ok,
        registry_ok ==> *final(settings) == (Settings { autostart: value, ..*old(settings) }),
        !registry_ok ==> *final(settings) == *old(settings),
{
    if !registry_ok {
        return false;
    }
    settings.autostart = value;
    true
}

/// What to do to the login entry.
#[derive(Clone, Copy, Debug, PartialEq, Eq, Structural)]
pub enum RegistryAction {
    /// Nothing to do: removing an entry that is not there.
    AlreadyDone,
    /// Write the entry naming the running executable.
    Add,
    /// Delete the entry.
    Delete,
}

/// Enabling always writes the entry; disabling deletes it only when it is
/// there.
pub fn autostart_registry_action(enabled: bool, currently_registered: bool) -> (r: RegistryAction)
    ensures
        enabled ==> r == RegistryAction::Add,
        !enabled && currently_registered ==> r == RegistryAction::Delete,
        !enabled && !currently_registered ==> r == RegistryAction::AlreadyDone,
{
    if !enabled && !currently_registered {
        RegistryAction::AlreadyDone
    } else if enabled {
        RegistryAction::Add
    } else {
        RegistryAction::Delete
    }
}


proof fn lemma_first_index_split(k: Seq<char>, v: Seq<char>)
    requires
        forall|i: int| 0 <= i < k.len() ==> k[i] != '=',
    ensures
        first_index_of(k + seq!['='] + v, '=') == k.len(),
    decreases v.len(),
{
    let s = k + seq!['='] + v;
    if v.len() == 0 {
        assert(s.drop_last() =~= k);
        lemma_first_index_absent(k);
    } else {
        assert(s.drop_last() =~= k + seq!['='] + v.drop_last());
        lemma_first_index_split(k, v.drop_last());
    }
}

proof fn lemma_first_index_absent(k: Seq<char>)
    requires
        forall|i: int| 0 <= i < k.len() ==> k[i] != '=',
    ensures
        first_index_of(k, '=') == -1,
    decreases k.len(),
{
    if k.len() > 0 {
        lemma_first_index_absent(k.drop_last());
    }
}

/// One `key=value` line, as the settings file writes it, sets the setting
/// it names.
proof fn lemma_apply_written_line(acc: LoadedSettings, key: Seq<char>, value: Seq<char>)
    requires
        key.len() > 0,
        value.len() > 0,
        forall|i: int| 0 <= i < key.len() ==> key[i] != '=' && 'a' <= key[i] <= 'z' || key[i] == '_',
        forall|i: int| 0 <= i < value.len() ==> 'a' <= #[trigger] value[i] <= 'z',
    ensures
        apply_setting_line(acc, key + seq!['='] + value) == apply_setting_line_parsed(acc, key, value),
{
    let line = key + seq!['='] + value;
    assert forall|i: int| 0 <= i < key.len() implies key[i] != '=' by {}
    lemma_first_index_split(key, value);
    assert(line.take(key.len() as int) =~= key);
    assert(line.skip(key.len() as int + 1) =~= value);
    crate::text::lemma_trim_unchanged(key);
    crate::text::lemma_trim_unchanged(value);
}

/// `apply_setting_line` once the line is known to be `key=value` with
/// key and value free of surrounding whitespace.
pub open spec fn apply_setting_line_parsed(
    acc: LoadedSettings,
    key: Seq<char>,
    value: Seq<char>,
) -> LoadedSettings {
    if key == "theme"@ {
        LoadedSettings {
            settings: Settings { theme: theme_from_key(value), ..acc.settings },
            ..acc
        }
    } else if key == "auto_update"@ {
        LoadedSettings {
            settings: Settings { auto_update: parse_bool_spec(value), ..acc.settings },
            ..acc
        }
    } else if key == "autostart"@ {
        LoadedSettings {
            settings: Settings { autostart: parse_bool_spec(value), ..acc.settings },
            saw_autostart_key: true,
        }
    } else {
        acc
    }
}

/// Reading back what `settings_text` wrote gives the same settings, and
/// the file counts as having the `autostart` key: saved settings persist.
pub proof fn lemma_settings_text_round_trip(settings: Settings)
    ensures
        parse_settings_spec(settings_text_spec(settings)) == (LoadedSettings {
            settings,
            saw_autostart_key: true,
        }),
{
    reveal_strlit("theme=");
    reveal_strlit("\nauto_update=");
    reveal_strlit("\nautostart=");
    reveal_strlit("\n");
    reveal_strlit("dark");
    reveal_strlit("light");
    reveal_strlit("true");
    reveal_strlit("false");
    reveal_strlit("theme");
    reveal_strlit("auto_update");
    reveal_strlit("autostart");
    reveal_strlit("1");
    reveal_strlit("yes");
    reveal_strlit("on");
    let tk = theme_key(settings.theme);
    let b1 = bool_text(settings.auto_update);
    let b2 = bool_text(settings.autostart);
    let k1 = "theme"@;
    let k2 = "auto_update"@;
    let k3 = "autostart"@;
    let l1 = k1 + seq!['='] + tk;
    let l2 = k2 + seq!['='] + b1;
    let l3 = k3 + seq!['='] + b2;
    assert(settings_text_spec(settings) =~= l1 + seq!['\n'] + l2 + seq!['\n'] + l3 + seq!['\n']);
    assert(crate::text::no_newline(l1));
    assert(crate::text::no_newline(l2));
    assert(crate::text::no_newline(l3));
    crate::text::lemma_lines_of_three(l1, l2, l3);
    let lines = seq![l1, l2, l3];
    assert(lines.drop_last() =~= seq![l1, l2]);
    assert(seq![l1, l2].drop_last() =~= seq![l1]);
    assert(seq![l1].drop_last() =~= Seq::<Seq<char>>::empty());
    let s0 = LoadedSettings { settings: default_settings(), saw_autostart_key: false };
    lemma_apply_written_line(s0, k1, tk);
    let s1 = apply_setting_line(s0, l1);
    lemma_apply_written_line(s1, k2, b1);
    let s2 = apply_setting_line(s1, l2);
    lemma_apply_written_line(s2, k3, b2);
    assert(k1 != k2 && k1 != k3 && k2 != k3);
    assert(apply_setting_lines(Seq::<Seq<char>>::empty()) == s0);
    assert(apply_setting_lines(seq![l1]) == s1);
    assert(apply_setting_lines(seq![l1, l2]) == s2);
    assert(apply_setting_lines(lines) == apply_setting_line(s2, l3));
    assert(theme_from_key(tk) == settings.theme);
    assert(parse_bool_spec(b1) == settings.auto_update);
    assert(parse_bool_spec(b2) == settings.autostart);
}


/// The login entry is migrated at most once: settings settled after any
/// load and written back are read again without a migration, and with the
/// `autostart` value the registry gave.
pub proof fn lemma_migration_once(loaded: LoadedSettings, registry_autostart: bool)
    ensures
        ({
            let settled = Settings { autostart: registry_autostart, ..loaded.settings };
            let reloaded = parse_settings_spec(settings_text_spec(settled));
            &&& !autostart_migration_spec(reloaded)
            &&& reloaded.settings == settled
        }),
{
    lemma_settings_text_round_trip(Settings { autostart: registry_autostart, ..loaded.settings });
}

/// Reading a theme's key gives the theme back.
pub proof fn lemma_theme_key_round_trip(theme: Theme)
    ensures
        theme_from_key(theme_key(theme)) == theme,
{
    reveal_strlit("light");
    reveal_strlit("dark");
}

/// Toggling twice restores the theme; toggling once changes it.
pub proof fn lemma_toggle_involution(theme: Theme)
    ensures
        theme_toggled(theme_toggled(theme)) == theme,
        theme_toggled(theme) != theme,
{
}

} // verus!
