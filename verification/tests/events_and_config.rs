use soundbot::config::{checked_setting, setting, setting_status, setting_status_from, ConfigError};
use soundbot::events::Handler;
use soundbot::reaction::{single_char, ReactionCommand};
use soundbot::watch::{still_in_channel, WATCHED_FIRST, WATCHED_SECOND};

fn s(x: &str) -> String {
    x.to_string()
}

#[test]
fn reaction_decisions() {
    let h = Handler;
    let play = Some(s("▶"));
    let stop = Some(s("⏹"));
    assert_eq!(h.reaction_add(true, "$p zewzew", "$", play.clone()), ReactionCommand::Ignore);
    assert_eq!(h.reaction_add(false, "$p zewzew", "$", play.clone()), ReactionCommand::Play(s("zewzew")));
    assert_eq!(h.reaction_add(false, "$play zewzew", "$", stop.clone()), ReactionCommand::Stop(s("zewzew")));
    assert_eq!(h.reaction_add(false, "$P ZewZew Extra", "$", play.clone()), ReactionCommand::Play(s("zewzew extra")));
    assert_eq!(h.reaction_add(false, "!p zewzew", "$", play.clone()), ReactionCommand::Ignore);
    assert_eq!(h.reaction_add(false, "$p zewzew", "$", Some(s("👍"))), ReactionCommand::Ignore);
    assert_eq!(h.reaction_add(false, "$p zewzew", "$", None), ReactionCommand::Ignore);
    assert_eq!(h.reaction_add(false, "$help", "$", play.clone()), ReactionCommand::Other);
    assert!(h.reaction_faults(false, "", "$", &play));
    assert!(h.reaction_faults(false, "$p x", "$$", &play));
    assert!(h.reaction_faults(false, "  ", " ", &play));
    assert!(h.reaction_faults(false, "éplay x", "é", &play));
    assert!(!h.reaction_faults(false, "", "$", &None));
    assert!(!h.reaction_faults(true, "", "$$", &play));
    assert_eq!(h.checked_reaction(false, "", "$", play.clone()), None);
    assert_eq!(h.checked_reaction(false, "$p y", "$", play.clone()), Some(ReactionCommand::Play(s("y"))));
    assert_eq!(h.reaction_add(false, "$p", "$", play), ReactionCommand::Play(s("")));
    assert_eq!(single_char("$"), Some('$'));
    assert_eq!(single_char(""), None);
}

#[test]
fn voice_watch_decisions() {
    let h = Handler;
    assert_eq!(h.voice_state_update(Some(WATCHED_FIRST)), Some(WATCHED_FIRST));
    assert_eq!(h.voice_state_update(Some(WATCHED_SECOND)), Some(WATCHED_SECOND));
    assert_eq!(h.voice_state_update(Some(1)), None);
    assert_eq!(h.voice_state_update(None), None);
    assert!(still_in_channel(&vec![1, 2, 3], 2));
    assert!(!still_in_channel(&vec![1, 3], 2));
    assert!(!still_in_channel(&vec![], 2));
}

#[test]
fn config_settings() {
    let text = r#"{"PREFIX": "$", "TOKEN": "SECRET-REDACTED", "N": 3}"#;
    assert_eq!(setting(text, "PREFIX"), "$");
    assert_eq!(setting(text, "TOKEN"), "SECRET-REDACTED");
    assert_eq!(setting_status(text, "PREFIX"), Ok(()));
    assert_eq!(setting_status(text, "N"), Err(ConfigError::NotAString));
    assert_eq!(setting_status(text, "MISSING"), Err(ConfigError::NotAString));
    assert_eq!(setting_status("not json", "PREFIX"), Err(ConfigError::InvalidJson));
    assert_eq!(setting_status("[1, 2]", "PREFIX"), Err(ConfigError::NotAString));
    assert_eq!(checked_setting(text, "PREFIX"), Some(s("$")));
    assert_eq!(checked_setting(text, "N"), None);
    assert_eq!(setting_status_from(&None), Err(ConfigError::InvalidJson));
    assert_eq!(setting_status_from(&Some(None)), Err(ConfigError::NotAString));
    assert_eq!(setting_status_from(&Some(Some(s("v")))), Ok(()));
}
