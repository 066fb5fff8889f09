//! The assistant's user configuration and what its command-line flags do to it.

use vstd::prelude::*;
use crate::server::{copy_opt, opt_view};

verus! {

/// User configuration of the assistant.
pub struct AppConfig {
    pub api_key: Option<String>,
    pub system_prompt: Option<String>,
    pub save_history: Option<bool>,
}

pub struct AppConfigView {
    pub api_key: Option<Seq<char>>,
    pub system_prompt: Option<Seq<char>>,
    pub save_history: Option<bool>,
}

impl View for AppConfig {
    type V = AppConfigView;

    open spec fn view(&self) -> AppConfigView {
        AppConfigView {
            api_key: opt_view(self.api_key),
            system_prompt: opt_view(self.system_prompt),
            save_history: self.save_history,
        }
    }
}

/// The system prompt of a fresh configuration.
pub open spec fn default_system_prompt() -> Seq<char> {
    "You are a helpful command-line assistant for Linux. You have access to the last few commands the user has run in their terminal. Use this context to provide more relevant answers. When asked about commands, provide concise and practical solutions focused on the user's needs."@
}

impl Default for AppConfig {
    /// No API key, the default system prompt, history saved.
    fn default() -> (r: AppConfig)
        ensures
            r@ == (AppConfigView { api_key: None, system_prompt: Some(default_system_prompt()), save_history: Some(true) }),
    {
        AppConfig {
            api_key: None,
            system_prompt: Some("You are a helpful command-line assistant for Linux. You have access to the last few commands the user has run in their terminal. Use this context to provide more relevant answers. When asked about commands, provide concise and practical solutions focused on the user's needs.".to_string()),
            save_history: Some(true),
        }
    }
}

impl AppConfig {
    pub fn duplicate(&self) -> (r: AppConfig)
        ensures
            r@ == self@,
    {
        AppConfig {
            api_key: copy_opt(&self.api_key),
            system_prompt: copy_opt(&self.system_prompt),
            save_history: self.save_history,
        }
    }
}

/// The configuration flags given on the command line.
pub struct ConfigFlags {
    pub enable_history: bool,
    pub disable_history: bool,
    pub set_api_key: Option<String>,
    pub set_system_prompt: Option<String>,
    pub show_config: bool,
}

/// What the caller does after the flags were applied, in this order: save
/// if the history setting changed; save and report if a key or prompt
/// changed; otherwise show the configuration if asked; exit if told to.
#[derive(PartialEq, Eq, Structural, Clone, Copy, Debug)]
pub struct FlagOutcome {
    pub history_changed: bool,
    pub config_updated: bool,
    pub show_config: bool,
    pub exit: bool,
}

pub open spec fn history_after(enable: bool, disable: bool, h: Option<bool>) -> Option<bool> {
    if enable { Some(true) } else if disable { Some(false) } else { h }
}

pub open spec fn setting_after(flag: Option<Seq<char>>, current: Option<Seq<char>>) -> Option<Seq<char>> {
    match flag {
        Some(v) => Some(v),
        None => current,
    }
}

/// The configuration after the flags.
pub open spec fn config_after(f: ConfigFlags, c: AppConfigView) -> AppConfigView {
    AppConfigView {
        api_key: setting_after(opt_view(f.set_api_key), c.api_key),
        system_prompt: setting_after(opt_view(f.set_system_prompt), c.system_prompt),
        save_history: history_after(f.enable_history, f.disable_history, c.save_history),
    }
}

/// What the caller has to do after the flags.
pub open spec fn outcome_of(f: ConfigFlags, c: AppConfigView) -> FlagOutcome {
    let n = config_after(f, c);
    let history_changed = n.save_history != c.save_history;
    let config_updated = n.api_key != c.api_key || n.system_prompt != c.system_prompt;
    FlagOutcome {
        history_changed,
        config_updated,
        show_config: f.show_config && !config_updated,
        exit: config_updated || f.show_config || history_changed,
    }
}

fn apply_setting(flag: &Option<String>, current: &mut Option<String>) -> (changed: bool)
    ensures
        opt_view(*final(current)) == setting_after(opt_view(*flag), opt_view(*old(current))),
        changed == (opt_view(*final(current)) != opt_view(*old(current))),
{
    match flag {
        Some(v) => {
            let differs = match current {
                Some(c) => *c != *v,
                None => true,
            };
            if differs {
                *current = Some(v.clone());
            }
            differs
        },
        None => false,
    }
}

/// Applies the history, API key and system prompt flags to `cfg` and says
/// what remains to be done.
pub fn handle_config_flags(flags: &ConfigFlags, cfg: &mut AppConfig) -> (r: FlagOutcome)
    ensures
        final(cfg)@ == config_after(*flags, old(cfg)@),
        r == outcome_of(*flags, old(cfg)@),
{
    let mut history_changed = false;
    if flags.enable_history {
        if cfg.save_history != Some(true) {
            cfg.save_history = Some(true);
            history_changed = true;
        }
    } else if flags.disable_history {
        if cfg.save_history != Some(false) {
            cfg.save_history = Some(false);
            history_changed = true;
        }
    }
    let key_changed = apply_setting(&flags.set_api_key, &mut cfg.api_key);
    let prompt_changed = apply_setting(&flags.set_system_prompt, &mut cfg.system_prompt);
    let config_updated = key_changed || prompt_changed;
    FlagOutcome {
        history_changed,
        config_updated,
        show_config: flags.show_config && !config_updated,
        exit: config_updated || flags.show_config || history_changed,
    }
}

/// The first `limit` characters of `s` followed by `...`, when `s` is longer
/// than `limit` characters; `None` when it is not.
pub open spec fn abbreviation(s: Seq<char>, limit: nat) -> Option<Seq<char>> {
    if s.len() > limit { Some(s.subrange(0, limit as int) + "..."@) } else { None }
}

/// How a long setting is shown: its first `limit` characters and `...`.
pub fn shown_prefix(s: &str, limit: usize) -> (r: Option<String>)
    ensures
        opt_view(r) == abbreviation(s@, limit as nat),
{
    if s.unicode_len() > limit {
        let p = s.substring_char(0, limit).to_string().concat("...");
        Some(p)
    } else {
        None
    }
}

} // verus!
