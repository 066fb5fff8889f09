use happe::config::{handle_config_flags, shown_prefix, AppConfig, ConfigFlags, FlagOutcome};

fn flags() -> ConfigFlags {
    ConfigFlags { enable_history: false, disable_history: false, set_api_key: None, set_system_prompt: None, show_config: false }
}

#[test]
fn default_config_saves_history() {
    let c = AppConfig::default();
    assert_eq!(c.api_key, None);
    assert_eq!(c.save_history, Some(true));
    assert!(c.system_prompt.unwrap().starts_with("You are a helpful command-line assistant for Linux."));
}

#[test]
fn no_flags_change_nothing() {
    let mut c = AppConfig::default();
    let r = handle_config_flags(&flags(), &mut c);
    assert_eq!(r, FlagOutcome { history_changed: false, config_updated: false, show_config: false, exit: false });
}

#[test]
fn disabling_history_saves_and_exits() {
    let mut c = AppConfig::default();
    let f = ConfigFlags { disable_history: true, ..flags() };
    let r = handle_config_flags(&f, &mut c);
    assert_eq!(c.save_history, Some(false));
    assert_eq!(r, FlagOutcome { history_changed: true, config_updated: false, show_config: false, exit: true });
    let again = handle_config_flags(&f, &mut c);
    assert!(!again.history_changed && !again.exit);
}

#[test]
fn setting_same_key_is_no_update() {
    let mut c = AppConfig::default();
    let f = ConfigFlags { set_api_key: Some("k1".to_string()), show_config: true, ..flags() };
    let r = handle_config_flags(&f, &mut c);
    assert_eq!(c.api_key, Some("k1".to_string()));
    assert_eq!(r, FlagOutcome { history_changed: false, config_updated: true, show_config: false, exit: true });
    let r2 = handle_config_flags(&f, &mut c);
    assert_eq!(r2, FlagOutcome { history_changed: false, config_updated: false, show_config: true, exit: true });
}

#[test]
fn new_system_prompt_is_stored() {
    let mut c = AppConfig::default();
    let f = ConfigFlags { set_system_prompt: Some("be brief".to_string()), enable_history: true, ..flags() };
    let r = handle_config_flags(&f, &mut c);
    assert_eq!(c.system_prompt, Some("be brief".to_string()));
    assert_eq!(r, FlagOutcome { history_changed: false, config_updated: true, show_config: false, exit: true });
}

#[test]
fn long_settings_are_abbreviated() {
    assert_eq!(shown_prefix("abcdefghij", 8), Some("abcdefgh...".to_string()));
    assert_eq!(shown_prefix("abcdefgh", 8), None);
    assert_eq!(shown_prefix("ééééééééé", 8), Some("éééééééé...".to_string()));
    assert_eq!(shown_prefix("", 0), None);
}
