use iobitunlocker_shell_bridge::action::BridgeAction;
use iobitunlocker_shell_bridge::config::{
    menu_text_config_from, parse_bool_value, parse_hotkey_value, parse_menu_text_config,
    MenuTextConfig,
};
use iobitunlocker_shell_bridge::log::{log_debug, log_event};

fn assert_defaults(config: &MenuTextConfig) {
    assert_eq!(config.root_menu_text, "Iobit Unlocker快捷操作");
    assert_eq!(config.unlock_menu_text, "解锁");
    assert_eq!(config.delete_menu_text, "解锁并删除");
    assert_eq!(config.unlock_menu_hotkey, "F");
    assert_eq!(config.delete_menu_hotkey, "D");
    assert!(!config.debug_log);
    assert!(!config.unlock_force_fallback);
    assert!(!config.delete_force_fallback);
}

#[test]
fn defaults_hold_without_settings() {
    assert_defaults(&MenuTextConfig::default());
    assert_defaults(&parse_menu_text_config(""));
    assert_eq!(MenuTextConfig::default().dialog_title(), "Iobit Unlocker快捷操作");
}

#[test]
fn the_documented_file_is_read() {
    let config = parse_menu_text_config(
        "root_menu_text=Root\r\nunlock_menu_text=U\r\ndelete_menu_text=D\r\ndebug_log=1\r\n",
    );
    assert_eq!(config.root_menu_text, "Root");
    assert_eq!(config.dialog_title(), "Root");
    assert_eq!(config.unlock_menu_text, "U");
    assert_eq!(config.delete_menu_text, "D");
    assert!(config.debug_log);
    assert!(!config.unlock_force_fallback);
}

#[test]
fn other_lines_set_nothing() {
    assert_defaults(&parse_menu_text_config(
        "# root_menu_text=x\n; debug_log=1\n\n   \nroot_menu_text\nroot_menu_text=  \nother=1\nDebug_Log=1\n",
    ));
}

#[test]
fn the_last_setting_counts() {
    let config = parse_menu_text_config("debug_log=1\nroot_menu_text=a\ndebug_log=0\n root_menu_text = b = c ");
    assert!(!config.debug_log);
    assert_eq!(config.root_menu_text, "b = c");
    let kept = parse_menu_text_config("root_menu_text=a\nroot_menu_text=\n");
    assert_eq!(kept.root_menu_text, "a");
}

#[test]
fn force_fallbacks_are_read() {
    let config = parse_menu_text_config("unlock_force_fallback=yes\ndelete_force_fallback=On");
    assert!(config.unlock_force_fallback);
    assert!(config.delete_force_fallback);
}

#[test]
fn texts_are_never_blank_and_never_padded() {
    let config = parse_menu_text_config(
        "root_menu_text= \t a \u{3000}\nunlock_menu_text=\u{a0}\ndelete_menu_text=\r\nunlock_menu_hotkey=\n",
    );
    assert_eq!(config.root_menu_text, "a");
    assert_eq!(config.unlock_menu_text, "解锁");
    assert_eq!(config.delete_menu_text, "解锁并删除");
    assert_eq!(config.unlock_menu_hotkey, "F");
}

#[test]
fn each_action_has_its_own_fallback() {
    let unlock = parse_menu_text_config("unlock_force_fallback=1\n");
    assert!(unlock.force_fallback_for(BridgeAction::Unlock));
    assert!(!unlock.force_fallback_for(BridgeAction::Delete));
    let delete = parse_menu_text_config("unlock_force_fallback=0\ndelete_force_fallback=1\n");
    assert!(!delete.force_fallback_for(BridgeAction::Unlock));
    assert!(delete.force_fallback_for(BridgeAction::Delete));
    assert!(!MenuTextConfig::default().force_fallback_for(BridgeAction::Unlock));
}

#[test]
fn hotkeys_are_read() {
    let config = parse_menu_text_config("unlock_menu_hotkey=U\ndelete_menu_hotkey= none \n");
    assert_eq!(config.unlock_menu_hotkey, "U");
    assert_eq!(config.delete_menu_hotkey, "none");
    for word in ["none", "off", "0", "-", ""] {
        assert_eq!(parse_hotkey_value(word), None);
    }
    assert_eq!(parse_hotkey_value("F"), Some('F'));
    assert_eq!(parse_hotkey_value("n"), Some('n'));
    assert_eq!(parse_hotkey_value("01"), Some('0'));
    assert_eq!(parse_hotkey_value("键盘"), Some('键'));
}

#[test]
fn ten_words_switch_a_setting_on() {
    for word in ["1", "true", "True", "TRUE", "yes", "Yes", "YES", "on", "On", "ON", " 1 "] {
        assert!(parse_bool_value(word), "{}", word);
    }
    for word in ["", "0", "false", "tRUE", "2", "oN", "1 1"] {
        assert!(!parse_bool_value(word), "{}", word);
    }
}

#[test]
fn an_unreadable_file_leaves_the_defaults_and_is_logged() {
    let reading = menu_text_config_from("C:\\d\\x.ini", Err("not found".to_string()));
    assert_defaults(&reading.config);
    assert_eq!(
        reading.log.unwrap(),
        "config: using defaults because C:\\d\\x.ini could not be read: not found"
    );
    let reading = menu_text_config_from("C:\\d\\x.ini", Ok("debug_log=1".to_string()));
    assert!(reading.config.debug_log);
    assert!(reading.log.is_none());
}

#[test]
fn log_lines_end_with_a_line_feed() {
    assert_eq!(log_event("hello"), "hello\n");
    assert_eq!(log_debug(true, "hello"), Some("hello\n".to_string()));
    assert_eq!(log_debug(false, "hello"), None);
}
