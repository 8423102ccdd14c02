//! The daemon's tunables, their defaults, and how a configuration file in
//! TOML sets them.

use crate::error::LumdError;
use vstd::prelude::*;
use vstd::string::StringExecFns;

verus! {

/// A parsed TOML value, as the `toml` crate holds it.
#[verifier::external_type_specification]
#[verifier::external_body]
pub struct ExTomlValue(toml::Value);

/// The failure that the `toml` crate reports for a malformed document.
#[verifier::external_type_specification]
#[verifier::external_body]
pub struct ExTomlError(toml::de::Error);

/// The integers that a TOML value holds under its keys: one entry for each
/// key of the table whose value is an integer, and none where the value is
/// no table.
pub uninterp spec fn value_integers(value: toml::Value) -> Map<Seq<char>, i64>;

/// The integers that a TOML document sets at its top level, or `None` where
/// the text is no TOML document.
pub uninterp spec fn document_integers(content: Seq<char>) -> Option<Map<Seq<char>, i64>>;

/// Calls `toml::from_str` for a `toml::Value`.
///
/// Believed of it: whether it succeeds, and which integers the value then
/// holds at its top level, depends on the text alone, and is what
/// `document_integers` names.
#[verifier::external_body]
fn parse_document(content: &str) -> (result: Result<toml::Value, toml::de::Error>)
    ensures
        match result {
            Ok(value) => document_integers(content@) == Some(value_integers(value)),
            Err(_) => document_integers(content@) is None,
        },
{
    toml::from_str::<toml::Value>(content)
}

/// Calls `toml::Value::get` with a key, and `toml::Value::as_integer` on
/// the entry that it finds.
///
/// Believed of them: the result is the integer under `key` where the value
/// is a table that holds one there, and `None` otherwise.
#[verifier::external_body]
fn integer_at(value: &toml::Value, key: &str) -> (found: Option<i64>)
    ensures
        found == entry(value_integers(*value), key@),
{
    value.get(key)?.as_integer()
}

/// Renders a `toml::de::Error` through its `Display` impl. Nothing is
/// claimed of the text.
#[verifier::external_body]
fn error_text(error: &toml::de::Error) -> (text: String) {
    error.to_string()
}

/// The integer that a set of entries holds under a key, if any.
pub open spec fn entry(entries: Map<Seq<char>, i64>, key: Seq<char>) -> Option<i64> {
    if entries.contains_key(key) {
        Some(entries[key])
    } else {
        None
    }
}

/// The integers that a configuration file sets, one for each tunable that it
/// names.
#[derive(Clone, Copy, Debug, PartialEq, Eq, Structural)]
pub struct ConfigValues {
    /// The integer under `min_brightness`.
    pub min_brightness: Option<i64>,
    /// The integer under `brightness_offset`.
    pub brightness_offset: Option<i64>,
    /// The integer under `sample_interval_secs`.
    pub sample_interval_secs: Option<i64>,
    /// The integer under `transition_steps`.
    pub transition_steps: Option<i64>,
    /// The integer under `step_delay_ms`.
    pub step_delay_ms: Option<i64>,
    /// The integer under `brightness_threshold`.
    pub brightness_threshold: Option<i64>,
    /// The integer under `manual_adjustment_amount`.
    pub manual_adjustment_amount: Option<i64>,
}

impl ConfigValues {
    /// The values that a set of top-level integer entries gives.
    pub open spec fn of_entries(entries: Map<Seq<char>, i64>) -> ConfigValues {
        ConfigValues {
            min_brightness: entry(entries, "min_brightness"@),
            brightness_offset: entry(entries, "brightness_offset"@),
            sample_interval_secs: entry(entries, "sample_interval_secs"@),
            transition_steps: entry(entries, "transition_steps"@),
            step_delay_ms: entry(entries, "step_delay_ms"@),
            brightness_threshold: entry(entries, "brightness_threshold"@),
            manual_adjustment_amount: entry(entries, "manual_adjustment_amount"@),
        }
    }
}

/// The tunables of the control loop and of the transition engine. They are
/// fixed once the daemon has started.
#[derive(Clone, Copy, Debug, PartialEq, Eq, Structural)]
pub struct Config {
    /// The lowest brightness that a cycle may set.
    pub min_brightness: i32,
    /// The offset added to the sensor's level at startup.
    pub brightness_offset: i32,
    /// Seconds between two samples when no command arrives.
    pub sample_interval_secs: u64,
    /// Number of interpolated writes of a gradual transition.
    pub transition_steps: u32,
    /// Milliseconds of pause between two steps of a transition.
    pub step_delay_ms: u64,
    /// The change in target below which a new sample is taken for noise.
    pub brightness_threshold: i32,
    /// The amount by which one manual command moves the offset.
    pub manual_adjustment_amount: i32,
}

impl Config {
    /// The tunables used where no file sets them.
    pub open spec fn default_spec() -> Config {
        Config {
            min_brightness: 1,
            brightness_offset: 40,
            sample_interval_secs: 3,
            transition_steps: 10,
            step_delay_ms: 10,
            brightness_threshold: 8,
            manual_adjustment_amount: 8,
        }
    }
}

impl Config {
    /// The defaults with each value that a file sets in its place. A value
    /// that does not fit its tunable keeps its low bits.
    pub open spec fn with_values(values: ConfigValues) -> Config {
        let d = Config::default_spec();
        Config {
            min_brightness: match values.min_brightness {
                Some(v) => v as i32,
                None => d.min_brightness,
            },
            brightness_offset: match values.brightness_offset {
                Some(v) => v as i32,
                None => d.brightness_offset,
            },
            sample_interval_secs: match values.sample_interval_secs {
                Some(v) => v as u64,
                None => d.sample_interval_secs,
            },
            transition_steps: match values.transition_steps {
                Some(v) => v as u32,
                None => d.transition_steps,
            },
            step_delay_ms: match values.step_delay_ms {
                Some(v) => v as u64,
                None => d.step_delay_ms,
            },
            brightness_threshold: match values.brightness_threshold {
                Some(v) => v as i32,
                None => d.brightness_threshold,
            },
            manual_adjustment_amount: match values.manual_adjustment_amount {
                Some(v) => v as i32,
                None => d.manual_adjustment_amount,
            },
        }
    }

    /// What a configuration file gives: the defaults where there is no file,
    /// the defaults with the file's values where it is a TOML document, and
    /// no configuration otherwise.
    pub open spec fn of_file(content: Option<Seq<char>>) -> Option<Config> {
        match content {
            None => Some(Config::default_spec()),
            Some(text) => match document_integers(text) {
                Some(entries) => Some(Config::with_values(ConfigValues::of_entries(entries))),
                None => None,
            },
        }
    }

    /// Puts the values that a file sets in the place of the defaults.
    pub fn from_values(values: &ConfigValues) -> (config: Config)
        ensures
            config == Config::with_values(*values),
    {
        let mut config = Config::default();
        if let Some(v) = values.min_brightness {
            config.min_brightness = #[verifier::truncate] (v as i32);
        }
        if let Some(v) = values.brightness_offset {
            config.brightness_offset = #[verifier::truncate] (v as i32);
        }
        if let Some(v) = values.sample_interval_secs {
            config.sample_interval_secs = #[verifier::truncate] (v as u64);
        }
        if let Some(v) = values.transition_steps {
            config.transition_steps = #[verifier::truncate] (v as u32);
        }
        if let Some(v) = values.step_delay_ms {
            config.step_delay_ms = #[verifier::truncate] (v as u64);
        }
        if let Some(v) = values.brightness_threshold {
            config.brightness_threshold = #[verifier::truncate] (v as i32);
        }
        if let Some(v) = values.manual_adjustment_amount {
            config.manual_adjustment_amount = #[verifier::truncate] (v as i32);
        }
        config
    }

    /// Reads the tunables from a parsed document.
    pub fn from_document(document: &toml::Value) -> (config: Config)
        ensures
            config == Config::with_values(ConfigValues::of_entries(value_integers(*document))),
    {
        let values = ConfigValues {
            min_brightness: integer_at(document, "min_brightness"),
            brightness_offset: integer_at(document, "brightness_offset"),
            sample_interval_secs: integer_at(document, "sample_interval_secs"),
            transition_steps: integer_at(document, "transition_steps"),
            step_delay_ms: integer_at(document, "step_delay_ms"),
            brightness_threshold: integer_at(document, "brightness_threshold"),
            manual_adjustment_amount: integer_at(document, "manual_adjustment_amount"),
        };
        Config::from_values(&values)
    }

    /// Reads the tunables from the content of the configuration file, or
    /// from no content where the file does not exist.
    pub fn from_file(content: Option<&str>) -> (result: Result<Config, LumdError>)
        ensures
            match Config::of_file(
                match content {
                    Some(text) => Some(text@),
                    None => None,
                },
            ) {
                Some(config) => result == Ok::<Config, LumdError>(config),
                None => result is Err && result->Err_0 is InvalidData
                    && "Config parse error: "@.is_prefix_of(result->Err_0->InvalidData_0@),
            },
    {
        match content {
            None => Ok(Config::default()),
            Some(text) => match parse_document(text) {
                Ok(document) => Ok(Config::from_document(&document)),
                Err(error) => {
                    let text = error_text(&error);
                    let message = String::from_str("Config parse error: ").concat(text.as_str());
                    assert(message@.subrange(0, "Config parse error: "@.len() as int)
                        =~= "Config parse error: "@);
                    Err(LumdError::InvalidData(message))
                },
            },
        }
    }
}

impl Default for Config {
    fn default() -> (config: Config)
        ensures
            config == Config::default_spec(),
    {
        Config {
            min_brightness: 1,
            brightness_offset: 40,
            sample_interval_secs: 3,
            transition_steps: 10,
            step_delay_ms: 10,
            brightness_threshold: 8,
            manual_adjustment_amount: 8,
        }
    }
}

} // verus!
