//! The settings that the deployment directory's `ini` file holds.

use crate::action::BridgeAction;
use crate::ini::{
    entry, entry_of, is_line_key, is_line_value, lemma_entry_of, lemma_trimmed_is_line_value,
    line_of, line_reads_back,
};
use crate::text::{
    chars_of, is_white_space, lemma_lines_of_concat, lemma_lines_of_hold_no_line_feed,
    lemma_trim_of, lemma_trim_of_fixed, lines, lines_of, reads, text_of, trim, trim_of,
};
use vstd::prelude::*;

verus! {

const DEFAULT_ROOT_MENU_TEXT: &'static str = "Iobit Unlocker快捷操作";

const DEFAULT_UNLOCK_MENU_TEXT: &'static str = "解锁";

const DEFAULT_DELETE_MENU_TEXT: &'static str = "解锁并删除";

const DEFAULT_UNLOCK_MENU_HOTKEY: &'static str = "F";

const DEFAULT_DELETE_MENU_HOTKEY: &'static str = "D";

/// The texts and hotkeys of the menu, whether to write a debug log, and for which actions a failed
/// call of the driver is followed by a forced one.
#[derive(Clone, Debug)]
pub struct MenuTextConfig {
    pub root_menu_text: String,
    pub unlock_menu_text: String,
    pub delete_menu_text: String,
    pub unlock_menu_hotkey: String,
    pub delete_menu_hotkey: String,
    pub debug_log: bool,
    pub unlock_force_fallback: bool,
    pub delete_force_fallback: bool,
}

/// What a `MenuTextConfig` holds.
pub struct MenuTextSettings {
    pub root_menu_text: Seq<char>,
    pub unlock_menu_text: Seq<char>,
    pub delete_menu_text: Seq<char>,
    pub unlock_menu_hotkey: Seq<char>,
    pub delete_menu_hotkey: Seq<char>,
    pub debug_log: bool,
    pub unlock_force_fallback: bool,
    pub delete_force_fallback: bool,
}

impl View for MenuTextConfig {
    type V = MenuTextSettings;

    open spec fn view(&self) -> MenuTextSettings {
        MenuTextSettings {
            root_menu_text: self.root_menu_text@,
            unlock_menu_text: self.unlock_menu_text@,
            delete_menu_text: self.delete_menu_text@,
            unlock_menu_hotkey: self.unlock_menu_hotkey@,
            delete_menu_hotkey: self.delete_menu_hotkey@,
            debug_log: self.debug_log,
            unlock_force_fallback: self.unlock_force_fallback,
            delete_force_fallback: self.delete_force_fallback,
        }
    }
}

/// The settings where the file says nothing.
pub open spec fn default_settings() -> MenuTextSettings {
    MenuTextSettings {
        root_menu_text: "Iobit Unlocker快捷操作"@,
        unlock_menu_text: "解锁"@,
        delete_menu_text: "解锁并删除"@,
        unlock_menu_hotkey: "F"@,
        delete_menu_hotkey: "D"@,
        debug_log: false,
        unlock_force_fallback: false,
        delete_force_fallback: false,
    }
}

/// Whether `settings` want a failed call of the driver for `action` followed by a forced one.
pub open spec fn force_fallback_of(settings: MenuTextSettings, action: BridgeAction) -> bool {
    match action {
        BridgeAction::Unlock => settings.unlock_force_fallback,
        BridgeAction::Delete => settings.delete_force_fallback,
    }
}

/// The hotkey that a setting names: the first character of its value, or none where the value is
/// one of the words that switch a hotkey off.
pub open spec fn hotkey_of(value: Seq<char>) -> Option<char> {
    if value.len() == 0 || value == "none"@ || value == "off"@ || value == "0"@ || value == "-"@ {
        None
    } else {
        Some(value[0])
    }
}

/// The values that switch a setting on.
pub open spec fn is_truthy(value: Seq<char>) -> bool {
    let word = trim_of(value);
    ||| word == "1"@
    ||| word == "true"@
    ||| word == "True"@
    ||| word == "TRUE"@
    ||| word == "yes"@
    ||| word == "Yes"@
    ||| word == "YES"@
    ||| word == "on"@
    ||| word == "On"@
    ||| word == "ON"@
}

/// `settings` with the one named `key` set to `value`.
pub open spec fn with_setting(
    settings: MenuTextSettings,
    key: Seq<char>,
    value: Seq<char>,
) -> MenuTextSettings {
    if key == "root_menu_text"@ {
        MenuTextSettings { root_menu_text: value, ..settings }
    } else if key == "unlock_menu_text"@ {
        MenuTextSettings { unlock_menu_text: value, ..settings }
    } else if key == "delete_menu_text"@ {
        MenuTextSettings { delete_menu_text: value, ..settings }
    } else if key == "unlock_menu_hotkey"@ {
        MenuTextSettings { unlock_menu_hotkey: value, ..settings }
    } else if key == "delete_menu_hotkey"@ {
        MenuTextSettings { delete_menu_hotkey: value, ..settings }
    } else if key == "debug_log"@ {
        MenuTextSettings { debug_log: is_truthy(value), ..settings }
    } else if key == "unlock_force_fallback"@ {
        MenuTextSettings { unlock_force_fallback: is_truthy(value), ..settings }
    } else if key == "delete_force_fallback"@ {
        MenuTextSettings { delete_force_fallback: is_truthy(value), ..settings }
    } else {
        settings
    }
}

/// `settings` after `line`. A line that sets nothing, or sets an empty value, leaves them alone.
pub open spec fn after_line(settings: MenuTextSettings, line: Seq<char>) -> MenuTextSettings {
    match entry_of(line) {
        Some((key, value)) => if trim_of(value).len() > 0 {
            with_setting(settings, key, trim_of(value))
        } else {
            settings
        },
        None => settings,
    }
}

/// The settings that the file `content` gives: each line in turn, from the defaults on.
pub open spec fn settings_of(content: Seq<char>) -> MenuTextSettings {
    lines_of(content).fold_left(
        default_settings(),
        |settings: MenuTextSettings, line: Seq<char>| after_line(settings, line),
    )
}

impl Default for MenuTextConfig {
    fn default() -> (r: Self)
        ensures
            r@ == default_settings(),
    {
        MenuTextConfig {
            root_menu_text: DEFAULT_ROOT_MENU_TEXT.to_owned(),
            unlock_menu_text: DEFAULT_UNLOCK_MENU_TEXT.to_owned(),
            delete_menu_text: DEFAULT_DELETE_MENU_TEXT.to_owned(),
            unlock_menu_hotkey: DEFAULT_UNLOCK_MENU_HOTKEY.to_owned(),
            delete_menu_hotkey: DEFAULT_DELETE_MENU_HOTKEY.to_owned(),
            debug_log: false,
            unlock_force_fallback: false,
            delete_force_fallback: false,
        }
    }
}

impl MenuTextConfig {
    /// The title of the error dialogs.
    pub fn dialog_title(&self) -> (r: &str)
        ensures
            r@ == self@.root_menu_text,
    {
        self.root_menu_text.as_str()
    }

    /// Whether a failed call of the driver for `action` is followed by a forced one.
    pub fn force_fallback_for(&self, action: BridgeAction) -> (r: bool)
        ensures
            r == force_fallback_of(self@, action),
    {
        match action {
            BridgeAction::Unlock => self.unlock_force_fallback,
            BridgeAction::Delete => self.delete_force_fallback,
        }
    }

    /// Takes in one line of the file.
    fn take_line(&mut self, line: &[char])
        ensures
            final(self)@ == after_line(old(self)@, line@),
    {
        if let Some((key, raw_value)) = entry(line) {
            let value: &[char] = trim(raw_value);
            if value.len() > 0 {
                if reads(key, "root_menu_text") {
                    self.root_menu_text = text_of(value);
                } else if reads(key, "unlock_menu_text") {
                    self.unlock_menu_text = text_of(value);
                } else if reads(key, "delete_menu_text") {
                    self.delete_menu_text = text_of(value);
                } else if reads(key, "unlock_menu_hotkey") {
                    self.unlock_menu_hotkey = text_of(value);
                } else if reads(key, "delete_menu_hotkey") {
                    self.delete_menu_hotkey = text_of(value);
                } else if reads(key, "debug_log") {
                    self.debug_log = truthy(value);
                } else if reads(key, "unlock_force_fallback") {
                    self.unlock_force_fallback = truthy(value);
                } else if reads(key, "delete_force_fallback") {
                    self.delete_force_fallback = truthy(value);
                }
            }
        }
    }
}

/// The settings that the file `content` gives.
pub fn parse_menu_text_config(content: &str) -> (config: MenuTextConfig)
    ensures
        config@ == settings_of(content@),
{
    let chars: Vec<char> = chars_of(content);
    let all: Vec<&[char]> = lines(chars.as_slice());
    let mut config = MenuTextConfig::default();
    let ghost step = |settings: MenuTextSettings, line: Seq<char>| after_line(settings, line);
    let ghost parts = lines_of(content@);
    for i in 0..all.len()
        invariant
            all@.map_values(|line: &[char]| line@) == parts,
            step == (|settings: MenuTextSettings, line: Seq<char>| after_line(settings, line)),
            config@ == parts.take(i as int).fold_left(default_settings(), step),
    {
        config.take_line(all[i]);
        assert(parts.take(i + 1).drop_last() == parts.take(i as int));
        assert(parts[i as int] == all@[i as int]@);
    }
    assert(parts.take(parts.len() as int) == parts);
    config
}

/// Whether `value` switches a setting on.
pub fn parse_bool_value(value: &str) -> (r: bool)
    ensures
        r == is_truthy(value@),
{
    let chars: Vec<char> = chars_of(value);
    truthy(chars.as_slice())
}

/// The hotkey that a setting names, if it names one.
pub fn parse_hotkey_value(value: &str) -> (hotkey: Option<char>)
    ensures
        hotkey == hotkey_of(value@),
{
    let chars: Vec<char> = chars_of(value);
    let word: &[char] = chars.as_slice();
    if chars.len() == 0 || reads(word, "none") || reads(word, "off") || reads(word, "0") || reads(
        word,
        "-",
    ) {
        None
    } else {
        Some(chars[0])
    }
}

fn truthy(value: &[char]) -> (r: bool)
    ensures
        r == is_truthy(value@),
{
    let word: &[char] = trim(value);
    reads(word, "1") || reads(word, "true") || reads(word, "True") || reads(word, "TRUE")
        || reads(word, "yes") || reads(word, "Yes") || reads(word, "YES") || reads(word, "on")
        || reads(word, "On") || reads(word, "ON")
}

/// The settings to go by, and what is to be logged of how they were come by.
pub struct ConfigReading {
    pub config: MenuTextConfig,
    pub log: Option<String>,
}

/// What is logged when the file at `path` cannot be read.
pub open spec fn unreadable_config_log_of(path: Seq<char>, error: Seq<char>) -> Seq<char> {
    "config: using defaults because "@ + path + " could not be read: "@ + error
}

/// The settings to go by when reading the file at `path` gave `content`: the text of the file, or
/// an error, which leaves the defaults and is logged.
pub fn menu_text_config_from(path: &str, content: Result<String, String>) -> (reading:
    ConfigReading)
    ensures
        match content {
            Ok(content) => reading.config@ == settings_of(content@) && reading.log is None,
            Err(error) => {
                &&& reading.config@ == default_settings()
                &&& reading.log matches Some(log)
                &&& log@ == unreadable_config_log_of(path@, error@)
            },
        },
{
    match content {
        Ok(content) => ConfigReading {
            config: parse_menu_text_config(content.as_str()),
            log: None,
        },
        Err(error) => {
            let mut log = String::new();
            log.append("config: using defaults because ");
            log.append(path);
            log.append(" could not be read: ");
            log.append(error.as_str());
            ConfigReading { config: MenuTextConfig::default(), log: Some(log) }
        },
    }
}

/// What a file says behind its last line feed, if anything, is taken in after all that stands
/// before.
pub proof fn lines_are_taken_in_order(content: Seq<char>, line: Seq<char>)
    requires
        content.len() > 0 ==> content.last() == '\n',
        !line.contains('\n'),
    ensures
        settings_of(content + line) == after_line(settings_of(content), line),
{
    let step = |settings: MenuTextSettings, line: Seq<char>| after_line(settings, line);
    let before = lines_of(content);
    let all = lines_of(content + line);
    lemma_lines_of_concat(content, line);
    crate::text::lemma_index_of(line, '\n');
    let at = crate::text::index_of(line, '\n') as int;
    if at < line.len() {
        assert(line.contains(line[at]));
    }
    assert(lines_of(line) == seq![line]);
    assert(all == before.drop_last().push(line));
    assert(all.drop_last() == before.drop_last());
    lemma_last_line_is_empty(content);
    assert(before.last() == Seq::<char>::empty());
    lemma_empty_line_sets_nothing(before.drop_last().fold_left(default_settings(), step));
}

/// The line behind a last line feed is empty.
proof fn lemma_last_line_is_empty(content: Seq<char>)
    requires
        content.len() > 0 ==> content.last() == '\n',
    ensures
        lines_of(content).len() > 0,
        lines_of(content).last() == Seq::<char>::empty(),
{
    lemma_lines_of_concat(content, seq![]);
    assert(content + Seq::<char>::empty() == content);
    assert(lines_of(Seq::<char>::empty()) == seq![Seq::<char>::empty()]);
}

proof fn lemma_empty_line_sets_nothing(settings: MenuTextSettings)
    ensures
        after_line(settings, seq![]) == settings,
{
}

/// A setting takes effect as it is written, whatever was set before, and no other setting changes.
pub proof fn last_setting_counts(content: Seq<char>, key: Seq<char>, value: Seq<char>)
    requires
        content.len() > 0 ==> content.last() == '\n',
        is_line_key(key),
        is_line_value(value),
    ensures
        settings_of(content + line_of(key, value)) == with_setting(
            settings_of(content),
            key,
            value,
        ),
{
    line_reads_back(key, value);
    lines_are_taken_in_order(content, line_of(key, value));
}

/// An empty file leaves the defaults.
pub proof fn empty_file_leaves_the_defaults()
    ensures
        settings_of(seq![]) == default_settings(),
{
    let step = |settings: MenuTextSettings, line: Seq<char>| after_line(settings, line);
    let all = lines_of(seq![]);
    assert(all == seq![Seq::<char>::empty()]);
    assert(all.drop_last() == Seq::<Seq<char>>::empty());
    assert(all.drop_last().fold_left(default_settings(), step) == default_settings());
    lemma_empty_line_sets_nothing(default_settings());
}

/// A comment, a line without a key and a value, and a line with an empty value change nothing.
pub proof fn other_lines_change_nothing(settings: MenuTextSettings, line: Seq<char>)
    requires
        entry_of(line) matches Some((key, value)) ==> trim_of(value).len() == 0,
    ensures
        after_line(settings, line) == settings,
{
}

/// Whether the texts and hotkeys are ones that a line can hold: not empty, with no white space at
/// their ends and no line feed.
pub open spec fn has_proper_texts(settings: MenuTextSettings) -> bool {
    &&& is_line_value(settings.root_menu_text)
    &&& is_line_value(settings.unlock_menu_text)
    &&& is_line_value(settings.delete_menu_text)
    &&& is_line_value(settings.unlock_menu_hotkey)
    &&& is_line_value(settings.delete_menu_hotkey)
}

proof fn lemma_default_texts()
    ensures
        has_proper_texts(default_settings()),
{
    reveal_strlit("Iobit Unlocker快捷操作");
    reveal_strlit("解锁");
    reveal_strlit("解锁并删除");
    reveal_strlit("F");
    reveal_strlit("D");
    lemma_trim_of_fixed("Iobit Unlocker快捷操作"@);
    lemma_trim_of_fixed("解锁"@);
    lemma_trim_of_fixed("解锁并删除"@);
    lemma_trim_of_fixed("F"@);
    lemma_trim_of_fixed("D"@);
}

proof fn lemma_setting_texts(lines: Seq<Seq<char>>)
    requires
        forall|i: int| 0 <= i < lines.len() ==> !(#[trigger] lines[i]).contains('\n'),
    ensures
        has_proper_texts(
            lines.fold_left(
                default_settings(),
                |settings: MenuTextSettings, line: Seq<char>| after_line(settings, line),
            ),
        ),
    decreases lines.len(),
{
    if lines.len() == 0 {
        lemma_default_texts();
    } else {
        let last = lines[lines.len() - 1];
        lemma_setting_texts(lines.drop_last());
        lemma_entry_of(last);
        if let Some((key, value)) = entry_of(last) {
            lemma_trimmed_is_line_value(value);
        }
    }
}

/// Whatever the file says, no text of the menu and no hotkey is empty, has white space at its ends
/// or holds a line feed.
pub proof fn menu_texts_are_proper(content: Seq<char>)
    ensures
        has_proper_texts(settings_of(content)),
{
    lemma_lines_of_hold_no_line_feed(content);
    lemma_setting_texts(lines_of(content));
}

/// The keys of the settings are eight different words.
proof fn lemma_keys_differ()
    ensures
        "root_menu_text"@ != "unlock_menu_text"@,
        "root_menu_text"@ != "delete_menu_text"@,
        "root_menu_text"@ != "unlock_menu_hotkey"@,
        "root_menu_text"@ != "delete_menu_hotkey"@,
        "root_menu_text"@ != "debug_log"@,
        "root_menu_text"@ != "unlock_force_fallback"@,
        "root_menu_text"@ != "delete_force_fallback"@,
        "unlock_menu_text"@ != "delete_menu_text"@,
        "unlock_menu_text"@ != "unlock_menu_hotkey"@,
        "unlock_menu_text"@ != "delete_menu_hotkey"@,
        "unlock_menu_text"@ != "debug_log"@,
        "unlock_menu_text"@ != "unlock_force_fallback"@,
        "unlock_menu_text"@ != "delete_force_fallback"@,
        "delete_menu_text"@ != "unlock_menu_hotkey"@,
        "delete_menu_text"@ != "delete_menu_hotkey"@,
        "delete_menu_text"@ != "debug_log"@,
        "delete_menu_text"@ != "unlock_force_fallback"@,
        "delete_menu_text"@ != "delete_force_fallback"@,
        "unlock_menu_hotkey"@ != "delete_menu_hotkey"@,
        "unlock_menu_hotkey"@ != "debug_log"@,
        "unlock_menu_hotkey"@ != "unlock_force_fallback"@,
        "unlock_menu_hotkey"@ != "delete_force_fallback"@,
        "delete_menu_hotkey"@ != "debug_log"@,
        "delete_menu_hotkey"@ != "unlock_force_fallback"@,
        "delete_menu_hotkey"@ != "delete_force_fallback"@,
        "debug_log"@ != "unlock_force_fallback"@,
        "debug_log"@ != "delete_force_fallback"@,
        "unlock_force_fallback"@ != "delete_force_fallback"@,
{
    reveal_strlit("root_menu_text");
    assert("root_menu_text"@.len() == 14);
    reveal_strlit("unlock_menu_text");
    assert("unlock_menu_text"@.len() == 16);
    reveal_strlit("delete_menu_text");
    assert("delete_menu_text"@.len() == 16);
    reveal_strlit("unlock_menu_hotkey");
    assert("unlock_menu_hotkey"@.len() == 18);
    reveal_strlit("delete_menu_hotkey");
    assert("delete_menu_hotkey"@.len() == 18);
    reveal_strlit("debug_log");
    assert("debug_log"@.len() == 9);
    reveal_strlit("unlock_force_fallback");
    assert("unlock_force_fallback"@.len() == 21);
    reveal_strlit("delete_force_fallback");
    assert("delete_force_fallback"@.len() == 21);
    assert("unlock_menu_text"@[0] != "delete_menu_text"@[0]);
    assert("unlock_menu_hotkey"@[0] != "delete_menu_hotkey"@[0]);
    assert("unlock_force_fallback"@[0] != "delete_force_fallback"@[0]);
}

/// A line sets the one field that its key names, to its value without the white space round it, and
/// leaves all others as they were; a line without an entry, with an empty value or with another key
/// leaves all of them. This holds behind any file, and for values of any length.
pub proof fn a_line_sets_the_field_that_it_names(content: Seq<char>, line: Seq<char>)
    requires
        content.len() > 0 ==> content.last() == '\n',
        !line.contains('\n'),
    ensures
        ({
            let before = settings_of(content);
            let new = settings_of(content + line);
            let (key, value) = match entry_of(line) {
                Some((key, value)) => (key, value),
                None => (seq![], seq![]),
            };
            let set = trim_of(value).len() > 0;
            &&& new.root_menu_text == if set && key == "root_menu_text"@ {
                trim_of(value)
            } else {
                before.root_menu_text
            }
            &&& new.unlock_menu_text == if set && key == "unlock_menu_text"@ {
                trim_of(value)
            } else {
                before.unlock_menu_text
            }
            &&& new.delete_menu_text == if set && key == "delete_menu_text"@ {
                trim_of(value)
            } else {
                before.delete_menu_text
            }
            &&& new.unlock_menu_hotkey == if set && key == "unlock_menu_hotkey"@ {
                trim_of(value)
            } else {
                before.unlock_menu_hotkey
            }
            &&& new.delete_menu_hotkey == if set && key == "delete_menu_hotkey"@ {
                trim_of(value)
            } else {
                before.delete_menu_hotkey
            }
            &&& new.debug_log == if set && key == "debug_log"@ {
                is_truthy(trim_of(value))
            } else {
                before.debug_log
            }
            &&& new.unlock_force_fallback == if set && key == "unlock_force_fallback"@ {
                is_truthy(trim_of(value))
            } else {
                before.unlock_force_fallback
            }
            &&& new.delete_force_fallback == if set && key == "delete_force_fallback"@ {
                is_truthy(trim_of(value))
            } else {
                before.delete_force_fallback
            }
        }),
{
    lines_are_taken_in_order(content, line);
    lemma_keys_differ();
}

/// What is written behind a file under one of the eight keys is read as that setting, whatever was
/// set before, and no other setting changes.
pub proof fn written_settings_are_read(content: Seq<char>, value: Seq<char>)
    requires
        content.len() > 0 ==> content.last() == '\n',
        value.len() > 0,
        !is_white_space(value[0]),
        !is_white_space(value.last()),
        !value.contains('\n'),
    ensures
        ({
            let new = settings_of(content + "root_menu_text="@ + value);
            let before = settings_of(content);
            &&& new.root_menu_text == value
            &&& new.unlock_menu_text == before.unlock_menu_text
            &&& new.delete_menu_text == before.delete_menu_text
            &&& new.unlock_menu_hotkey == before.unlock_menu_hotkey
            &&& new.delete_menu_hotkey == before.delete_menu_hotkey
            &&& new.debug_log == before.debug_log
            &&& new.unlock_force_fallback == before.unlock_force_fallback
            &&& new.delete_force_fallback == before.delete_force_fallback
        }),
        ({
            let new = settings_of(content + "unlock_menu_text="@ + value);
            let before = settings_of(content);
            &&& new.root_menu_text == before.root_menu_text
            &&& new.unlock_menu_text == value
            &&& new.delete_menu_text == before.delete_menu_text
            &&& new.unlock_menu_hotkey == before.unlock_menu_hotkey
            &&& new.delete_menu_hotkey == before.delete_menu_hotkey
            &&& new.debug_log == before.debug_log
            &&& new.unlock_force_fallback == before.unlock_force_fallback
            &&& new.delete_force_fallback == before.delete_force_fallback
        }),
        ({
            let new = settings_of(content + "delete_menu_text="@ + value);
            let before = settings_of(content);
            &&& new.root_menu_text == before.root_menu_text
            &&& new.unlock_menu_text == before.unlock_menu_text
            &&& new.delete_menu_text == value
            &&& new.unlock_menu_hotkey == before.unlock_menu_hotkey
            &&& new.delete_menu_hotkey == before.delete_menu_hotkey
            &&& new.debug_log == before.debug_log
            &&& new.unlock_force_fallback == before.unlock_force_fallback
            &&& new.delete_force_fallback == before.delete_force_fallback
        }),
        ({
            let new = settings_of(content + "unlock_menu_hotkey="@ + value);
            let before = settings_of(content);
            &&& new.root_menu_text == before.root_menu_text
            &&& new.unlock_menu_text == before.unlock_menu_text
            &&& new.delete_menu_text == before.delete_menu_text
            &&& new.unlock_menu_hotkey == value
            &&& new.delete_menu_hotkey == before.delete_menu_hotkey
            &&& new.debug_log == before.debug_log
            &&& new.unlock_force_fallback == before.unlock_force_fallback
            &&& new.delete_force_fallback == before.delete_force_fallback
        }),
        ({
            let new = settings_of(content + "delete_menu_hotkey="@ + value);
            let before = settings_of(content);
            &&& new.root_menu_text == before.root_menu_text
            &&& new.unlock_menu_text == before.unlock_menu_text
            &&& new.delete_menu_text == before.delete_menu_text
            &&& new.unlock_menu_hotkey == before.unlock_menu_hotkey
            &&& new.delete_menu_hotkey == value
            &&& new.debug_log == before.debug_log
            &&& new.unlock_force_fallback == before.unlock_force_fallback
            &&& new.delete_force_fallback == before.delete_force_fallback
        }),
        ({
            let new = settings_of(content + "debug_log="@ + value);
            let before = settings_of(content);
            &&& new.root_menu_text == before.root_menu_text
            &&& new.unlock_menu_text == before.unlock_menu_text
            &&& new.delete_menu_text == before.delete_menu_text
            &&& new.unlock_menu_hotkey == before.unlock_menu_hotkey
            &&& new.delete_menu_hotkey == before.delete_menu_hotkey
            &&& new.debug_log == is_truthy(value)
            &&& new.unlock_force_fallback == before.unlock_force_fallback
            &&& new.delete_force_fallback == before.delete_force_fallback
        }),
        ({
            let new = settings_of(content + "unlock_force_fallback="@ + value);
            let before = settings_of(content);
            &&& new.root_menu_text == before.root_menu_text
            &&& new.unlock_menu_text == before.unlock_menu_text
            &&& new.delete_menu_text == before.delete_menu_text
            &&& new.unlock_menu_hotkey == before.unlock_menu_hotkey
            &&& new.delete_menu_hotkey == before.delete_menu_hotkey
            &&& new.debug_log == before.debug_log
            &&& new.unlock_force_fallback == is_truthy(value)
            &&& new.delete_force_fallback == before.delete_force_fallback
        }),
        ({
            let new = settings_of(content + "delete_force_fallback="@ + value);
            let before = settings_of(content);
            &&& new.root_menu_text == before.root_menu_text
            &&& new.unlock_menu_text == before.unlock_menu_text
            &&& new.delete_menu_text == before.delete_menu_text
            &&& new.unlock_menu_hotkey == before.unlock_menu_hotkey
            &&& new.delete_menu_hotkey == before.delete_menu_hotkey
            &&& new.debug_log == before.debug_log
            &&& new.unlock_force_fallback == before.unlock_force_fallback
            &&& new.delete_force_fallback == is_truthy(value)
        }),
{
    lemma_keys_differ();
    lemma_trim_of_fixed(value);
    lemma_trim_of(value);
    reveal_strlit("root_menu_text");
    reveal_strlit("root_menu_text=");
    assert("root_menu_text="@ == "root_menu_text"@.push('='));
    reveal_strlit("unlock_menu_text");
    reveal_strlit("unlock_menu_text=");
    assert("unlock_menu_text="@ == "unlock_menu_text"@.push('='));
    reveal_strlit("delete_menu_text");
    reveal_strlit("delete_menu_text=");
    assert("delete_menu_text="@ == "delete_menu_text"@.push('='));
    reveal_strlit("unlock_menu_hotkey");
    reveal_strlit("unlock_menu_hotkey=");
    assert("unlock_menu_hotkey="@ == "unlock_menu_hotkey"@.push('='));
    reveal_strlit("delete_menu_hotkey");
    reveal_strlit("delete_menu_hotkey=");
    assert("delete_menu_hotkey="@ == "delete_menu_hotkey"@.push('='));
    reveal_strlit("debug_log");
    reveal_strlit("debug_log=");
    assert("debug_log="@ == "debug_log"@.push('='));
    reveal_strlit("unlock_force_fallback");
    reveal_strlit("unlock_force_fallback=");
    assert("unlock_force_fallback="@ == "unlock_force_fallback"@.push('='));
    reveal_strlit("delete_force_fallback");
    reveal_strlit("delete_force_fallback=");
    assert("delete_force_fallback="@ == "delete_force_fallback"@.push('='));
    lemma_written_line(content, "root_menu_text"@, "root_menu_text="@, value);
    lemma_written_line(content, "unlock_menu_text"@, "unlock_menu_text="@, value);
    lemma_written_line(content, "delete_menu_text"@, "delete_menu_text="@, value);
    lemma_written_line(content, "unlock_menu_hotkey"@, "unlock_menu_hotkey="@, value);
    lemma_written_line(content, "delete_menu_hotkey"@, "delete_menu_hotkey="@, value);
    lemma_written_line(content, "debug_log"@, "debug_log="@, value);
    lemma_written_line(content, "unlock_force_fallback"@, "unlock_force_fallback="@, value);
    lemma_written_line(content, "delete_force_fallback"@, "delete_force_fallback="@, value);
}

proof fn lemma_written_line(
    content: Seq<char>,
    key: Seq<char>,
    key_and_sign: Seq<char>,
    value: Seq<char>,
)
    requires
        content.len() > 0 ==> content.last() == '\n',
        is_line_key(key),
        is_line_value(value),
        key_and_sign == key.push('='),
    ensures
        settings_of(content + key_and_sign + value) == with_setting(
            settings_of(content),
            key,
            value,
        ),
{
    assert(content + key_and_sign + value == content + line_of(key, value));
    last_setting_counts(content, key, value);
}

/// A setting is switched on by ten words and by no other value, whatever white space stands round
/// them.
pub proof fn ten_words_switch_on(value: Seq<char>)
    ensures
        is_truthy(value) <==> (trim_of(value) == "1"@
            || trim_of(value) == "true"@
            || trim_of(value) == "True"@
            || trim_of(value) == "TRUE"@
            || trim_of(value) == "yes"@
            || trim_of(value) == "Yes"@
            || trim_of(value) == "YES"@
            || trim_of(value) == "on"@
            || trim_of(value) == "On"@
            || trim_of(value) == "ON"@),
{
}

/// A hotkey is the first character of what is set, unless that is one of the four words that switch
/// it off; nothing but these is taken for no hotkey.
pub proof fn hotkeys_are_first_characters(value: Seq<char>)
    requires
        value.len() > 0,
    ensures
        hotkey_of(value) is None <==> value == "none"@ || value == "off"@ || value == "0"@ || value
            == "-"@,
        hotkey_of(value) matches Some(key) ==> key == value[0],
{
}

/// Each action has a fallback to force of its own, which is off unless its setting is on.
pub proof fn fallbacks_go_by_their_own_setting(settings: MenuTextSettings)
    ensures
        force_fallback_of(settings, BridgeAction::Unlock) == settings.unlock_force_fallback,
        force_fallback_of(settings, BridgeAction::Delete) == settings.delete_force_fallback,
        !force_fallback_of(default_settings(), BridgeAction::Unlock),
        !force_fallback_of(default_settings(), BridgeAction::Delete),
{
}

/// What is logged of a file that could not be read names the file and gives the error.
pub proof fn unreadable_files_are_named(path: Seq<char>, error: Seq<char>)
    ensures
        unreadable_config_log_of(path, error) == "config: using defaults because "@ + path
            + " could not be read: "@ + error,
        error.is_suffix_of(unreadable_config_log_of(path, error)),
{
}

/// What settings hold is each of their fields.
pub proof fn settings_hold_each_field(config: MenuTextConfig)
    ensures
        config@.root_menu_text == config.root_menu_text@,
        config@.unlock_menu_text == config.unlock_menu_text@,
        config@.delete_menu_text == config.delete_menu_text@,
        config@.unlock_menu_hotkey == config.unlock_menu_hotkey@,
        config@.delete_menu_hotkey == config.delete_menu_hotkey@,
        config@.debug_log == config.debug_log,
        config@.unlock_force_fallback == config.unlock_force_fallback,
        config@.delete_force_fallback == config.delete_force_fallback,
{
}

} // verus!
