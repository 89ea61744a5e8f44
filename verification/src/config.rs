//! The settings of a synchronization cycle and how they are read from text.

use vstd::prelude::*;
use crate::hosts::{default_host_list, default_hosts, host_list, parse_hosts, texts};
use crate::text::{parse_u64, parse_usize, parsed_u64, parsed_usize};

verus! {

/// Probes in flight at once where nothing is configured.
pub const DEFAULT_MAX_AT_ONCE: usize = 50;

/// Size of the candidate pool where nothing is configured.
pub const DEFAULT_MAX_TOTAL: usize = 100;

/// Deadline of a batch, in milliseconds, where nothing is configured.
pub const DEFAULT_MAX_TIMEOUT_MS: u64 = 300;

/// The settings of a cycle.
#[derive(Debug)]
pub struct Config {
    /// The hosts to resolve, in order.
    pub hosts: Vec<String>,
    /// The most probes in flight at once: the size of a batch.
    pub max_at_once: usize,
    /// The most candidates in the pool.
    pub max_total: usize,
    /// The deadline of one batch, in milliseconds.
    pub max_timeout_ms: u64,
}

/// The mathematical value of a [`Config`].
pub struct ConfigView {
    pub hosts: Seq<Seq<char>>,
    pub max_at_once: usize,
    pub max_total: usize,
    pub max_timeout_ms: u64,
}

impl View for Config {
    type V = ConfigView;

    open spec fn view(&self) -> ConfigView {
        ConfigView {
            hosts: texts(self.hosts@),
            max_at_once: self.max_at_once,
            max_total: self.max_total,
            max_timeout_ms: self.max_timeout_ms,
        }
    }
}

/// The setting whose text is no number of its type.
#[derive(Debug, Clone, Copy, PartialEq, Eq, Structural)]
pub enum ConfigParseError {
    MaxAtOnce,
    MaxTotal,
    MaxTimeout,
}

/// The settings that the four texts give, each `None` where the setting is
/// not configured and then at its default. The numbers are read in the order
/// batch size, pool size, deadline, and the first that is no number of its
/// type is the error.
pub open spec fn config_of(
    max_at_once: Option<Seq<char>>,
    max_total: Option<Seq<char>>,
    max_timeout: Option<Seq<char>>,
    hosts: Option<Seq<char>>,
) -> Result<ConfigView, ConfigParseError> {
    let at_once = match max_at_once {
        Some(text) => parsed_usize(text),
        None => Some(DEFAULT_MAX_AT_ONCE),
    };
    let total = match max_total {
        Some(text) => parsed_usize(text),
        None => Some(DEFAULT_MAX_TOTAL),
    };
    let timeout = match max_timeout {
        Some(text) => parsed_u64(text),
        None => Some(DEFAULT_MAX_TIMEOUT_MS),
    };
    if at_once is None {
        Err(ConfigParseError::MaxAtOnce)
    } else if total is None {
        Err(ConfigParseError::MaxTotal)
    } else if timeout is None {
        Err(ConfigParseError::MaxTimeout)
    } else {
        Ok(
            ConfigView {
                hosts: match hosts {
                    Some(list) => host_list(list),
                    None => default_host_list(),
                },
                max_at_once: at_once->Some_0,
                max_total: total->Some_0,
                max_timeout_ms: timeout->Some_0,
            },
        )
    }
}

/// The text of an optional setting.
pub open spec fn text_of(setting: Option<&str>) -> Option<Seq<char>> {
    match setting {
        Some(text) => Some(text@),
        None => None,
    }
}

impl Default for Config {
    /// The settings where nothing is configured.
    fn default() -> (config: Config)
        ensures
            Ok::<ConfigView, ConfigParseError>(config@) == config_of(None, None, None, None),
    {
        Config {
            hosts: default_hosts(),
            max_at_once: DEFAULT_MAX_AT_ONCE,
            max_total: DEFAULT_MAX_TOTAL,
            max_timeout_ms: DEFAULT_MAX_TIMEOUT_MS,
        }
    }
}

/// Reads the settings of a cycle from their texts; a setting that is not
/// configured is `None` and takes its default.
pub fn parse_config(
    max_at_once: Option<&str>,
    max_total: Option<&str>,
    max_timeout: Option<&str>,
    hosts: Option<&str>,
) -> (config: Result<Config, ConfigParseError>)
    ensures
        match config {
            Ok(read) => Ok::<ConfigView, ConfigParseError>(read@) == config_of(
                text_of(max_at_once),
                text_of(max_total),
                text_of(max_timeout),
                text_of(hosts),
            ),
            Err(error) => Err::<ConfigView, ConfigParseError>(error) == config_of(
                text_of(max_at_once),
                text_of(max_total),
                text_of(max_timeout),
                text_of(hosts),
            ),
        },
{
    let at_once = match max_at_once {
        Some(text) => parse_usize(text),
        None => Some(DEFAULT_MAX_AT_ONCE),
    };
    let at_once = match at_once {
        Some(number) => number,
        None => { return Err(ConfigParseError::MaxAtOnce); },
    };
    let total = match max_total {
        Some(text) => parse_usize(text),
        None => Some(DEFAULT_MAX_TOTAL),
    };
    let total = match total {
        Some(number) => number,
        None => { return Err(ConfigParseError::MaxTotal); },
    };
    let timeout = match max_timeout {
        Some(text) => parse_u64(text),
        None => Some(DEFAULT_MAX_TIMEOUT_MS),
    };
    let timeout = match timeout {
        Some(number) => number,
        None => { return Err(ConfigParseError::MaxTimeout); },
    };
    let hosts = match hosts {
        Some(list) => parse_hosts(list),
        None => default_hosts(),
    };
    Ok(Config { hosts, max_at_once: at_once, max_total: total, max_timeout_ms: timeout })
}

} // verus!
