//! The configuration file: a JSON object whose string members hold the
//! settings (the command prefix, the bot token).

use vstd::prelude::*;

verus! {

/// What `serde_json` gives for the setting `key` of the JSON text `text`:
/// `None` when the text is not JSON, else `Some` of `value[key].as_str()`
/// (`None` inside when the member is missing or not a string). A function
/// of the text and the key alone.
pub uninterp spec fn json_setting_of(text: Seq<char>, key: Seq<char>) -> Option<Option<Seq<char>>>;

/// Parses `text` with `serde_json::from_str::<serde_json::Value>` and, when
/// that succeeds, reads `value[key].as_str()`. Its result is named
/// `json_setting_of`; nothing more is stated of it.
#[verifier::external_body]
fn json_setting(text: &str, key: &str) -> (r: Option<Option<String>>)
    ensures
        r.deep_view() == json_setting_of(text@, key@),
{
    match serde_json::from_str::<serde_json::Value>(text) {
        Ok(value) => Some(
            match value[key].as_str() {
                Some(s) => Some(s.to_string()),
                None => None,
            },
        ),
        Err(_) => None,
    }
}

/// Why a setting cannot be read.
#[derive(PartialEq, Eq, Structural, Debug, Clone, Copy)]
pub enum ConfigError {
    /// The file is not JSON.
    InvalidJson,
    /// The setting is missing or is not a JSON string.
    NotAString,
}

/// The setting `key` of the configuration text `text` can be read: the
/// text is JSON and the setting is a string.
pub open spec fn setting_readable(text: Seq<char>, key: Seq<char>) -> bool {
    json_setting_of(text, key) matches Some(Some(_))
}

/// The setting from what `serde_json` read: the string inside.
pub fn setting_from(read: Option<Option<String>>) -> (r: String)
    requires
        read matches Some(Some(_)),
    ensures
        read matches Some(Some(v)) && r@ == v@,
{
    match read {
        Some(Some(v)) => v,
        _ => {
            proof {
                assert(false);
            }
            String::new()
        },
    }
}

/// Whether what `serde_json` read (`None`: not JSON; `Some(None)`: the
/// setting is missing or no string) holds a setting, and if not, why.
pub fn setting_status_from(read: &Option<Option<String>>) -> (r: Result<(), ConfigError>)
    ensures
        match read {
            None => r == Err::<(), ConfigError>(ConfigError::InvalidJson),
            Some(None) => r == Err::<(), ConfigError>(ConfigError::NotAString),
            Some(Some(_)) => r == Ok::<(), ConfigError>(()),
        },
{
    match read {
        None => Err(ConfigError::InvalidJson),
        Some(None) => Err(ConfigError::NotAString),
        Some(Some(_)) => Ok(()),
    }
}

/// Whether the setting `key` of `text` can be read, and if not, why.
pub fn setting_status(text: &str, key: &str) -> (r: Result<(), ConfigError>)
    ensures
        match json_setting_of(text@, key@) {
            None => r == Err::<(), ConfigError>(ConfigError::InvalidJson),
            Some(None) => r == Err::<(), ConfigError>(ConfigError::NotAString),
            Some(Some(_)) => r == Ok::<(), ConfigError>(()),
        },
{
    setting_status_from(&json_setting(text, key))
}

/// The setting `key` of the configuration text `text`.
pub fn setting(text: &str, key: &str) -> (r: String)
    requires
        setting_readable(text@, key@),
    ensures
        json_setting_of(text@, key@) == Some(Some(r@)),
{
    setting_from(json_setting(text, key))
}

/// The setting `key` of `text`, where it can be read; `None` where it
/// cannot.
pub fn checked_setting(text: &str, key: &str) -> (r: Option<String>)
    ensures
        match r {
            Some(v) => json_setting_of(text@, key@) == Some(Some(v@)),
            None => !setting_readable(text@, key@),
        },
{
    match setting_status(text, key) {
        Ok(()) => Some(setting(text, key)),
        Err(_) => None,
    }
}

} // verus!
