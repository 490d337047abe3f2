//! Settings of the slots that the environment can change.

use vstd::prelude::*;

use crate::text::{self, parse_number};

verus! {

/// How long a transfer from remote storage may take, in seconds.
pub const DEFAULT_G4_TRANSFER_TIMEOUT_SECS: u64 = 30;

/// How many blocks are worth a lookup in remote storage.
pub const DEFAULT_G4_MIN_CANDIDATE_BLOCKS: usize = 8;

/// How many blocks are flushed at once.
pub const DEFAULT_FLUSH_BATCH_SIZE: usize = 512;

/// The texts of the settings in the environment.
#[derive(Debug)]
pub struct SlotEnv {
    pub g4_transfer_timeout_secs: Option<String>,
    pub g4_min_candidate_blocks: Option<String>,
    pub flush_batch_size: Option<String>,
}

/// The settings. The environment is read once: the number of blocks that are worth a lookup
/// when it is first asked for, the other two when either of them is.
#[derive(Debug, Clone, Copy, PartialEq, Eq, Structural)]
pub struct SlotConfig {
    pub g4_transfer_timeout_secs: u64,
    pub g4_min_candidate_blocks: Option<usize>,
    pub flush_batch_size: usize,
    /// Whether the environment was read for the timeout and the batch size.
    pub initialized: bool,
}

/// The number that a setting holds, or `default` where it holds none.
pub open spec fn number_or(setting: Option<Seq<char>>, default: u64) -> u64 {
    match setting {
        Some(value) => match text::parsed_number(value) {
            Some(number) => number,
            None => default,
        },
        None => default,
    }
}

/// The size that a setting holds, or `default` where it holds none.
pub open spec fn size_or(setting: Option<Seq<char>>, default: usize) -> usize {
    match setting {
        Some(value) => match text::parsed_number(value) {
            Some(number) => if number <= usize::MAX {
                number as usize
            } else {
                default
            },
            None => default,
        },
        None => default,
    }
}

fn setting_number(setting: &Option<String>) -> (number: Option<u64>)
    ensures
        number == match text::text_view(*setting) {
            Some(value) => text::parsed_number(value),
            None => None,
        },
{
    match setting {
        Some(value) => parse_number(value.as_str()),
        None => None,
    }
}

fn setting_size(setting: &Option<String>, default: usize) -> (size: usize)
    ensures
        size == size_or(text::text_view(*setting), default),
{
    match setting_number(setting) {
        Some(number) => if number <= usize::MAX as u64 {
            number as usize
        } else {
            default
        },
        None => default,
    }
}

impl SlotConfig {
    /// Nothing is read yet, and everything has its default.
    pub open spec fn unread() -> SlotConfig {
        SlotConfig {
            g4_transfer_timeout_secs: DEFAULT_G4_TRANSFER_TIMEOUT_SECS,
            g4_min_candidate_blocks: None,
            flush_batch_size: DEFAULT_FLUSH_BATCH_SIZE,
            initialized: false,
        }
    }

    /// With the environment read for the timeout and the batch size. What it holds replaces what
    /// was set before; a setting that is absent or no number replaces nothing.
    pub open spec fn read(self, env: SlotEnv) -> SlotConfig {
        if self.initialized {
            self
        } else {
            SlotConfig {
                g4_transfer_timeout_secs: number_or(
                    text::text_view(env.g4_transfer_timeout_secs),
                    self.g4_transfer_timeout_secs,
                ),
                flush_batch_size: size_or(
                    text::text_view(env.flush_batch_size),
                    self.flush_batch_size,
                ),
                initialized: true,
                ..self
            }
        }
    }

    /// How many blocks are worth a lookup in remote storage.
    pub open spec fn min_candidate_blocks(self, env: SlotEnv) -> usize {
        match self.g4_min_candidate_blocks {
            Some(blocks) => blocks,
            None => size_or(
                text::text_view(env.g4_min_candidate_blocks),
                DEFAULT_G4_MIN_CANDIDATE_BLOCKS,
            ),
        }
    }

    fn ensure_init(&mut self, env: &SlotEnv)
        ensures
            *final(self) == old(self).read(*env),
    {
        if !self.initialized {
            self.g4_transfer_timeout_secs = match setting_number(&env.g4_transfer_timeout_secs) {
                Some(secs) => secs,
                None => self.g4_transfer_timeout_secs,
            };
            self.flush_batch_size = setting_size(&env.flush_batch_size, self.flush_batch_size);
            self.initialized = true;
        }
    }
}

impl Default for SlotConfig {
    fn default() -> (config: Self)
        ensures
            config == SlotConfig::unread(),
    {
        SlotConfig {
            g4_transfer_timeout_secs: DEFAULT_G4_TRANSFER_TIMEOUT_SECS,
            g4_min_candidate_blocks: None,
            flush_batch_size: DEFAULT_FLUSH_BATCH_SIZE,
            initialized: false,
        }
    }
}

/// How long a transfer from remote storage may take, in seconds.
pub fn g4_transfer_timeout(config: &mut SlotConfig, env: &SlotEnv) -> (secs: u64)
    ensures
        secs == old(config).read(*env).g4_transfer_timeout_secs,
        *final(config) == old(config).read(*env),
{
    config.ensure_init(env);
    config.g4_transfer_timeout_secs
}

/// Sets how long a transfer from remote storage may take.
pub fn set_g4_transfer_timeout_secs(config: &mut SlotConfig, secs: u64)
    ensures
        *final(config) == (SlotConfig { g4_transfer_timeout_secs: secs, ..*old(config) }),
{
    config.g4_transfer_timeout_secs = secs;
}

/// How many blocks are worth a lookup in remote storage.
pub fn g4_min_candidate_blocks(config: &mut SlotConfig, env: &SlotEnv) -> (blocks: usize)
    ensures
        blocks == old(config).min_candidate_blocks(*env),
        *final(config) == (SlotConfig { g4_min_candidate_blocks: Some(blocks), ..*old(config) }),
{
    let blocks: usize = match config.g4_min_candidate_blocks {
        Some(blocks) => blocks,
        None => setting_size(&env.g4_min_candidate_blocks, DEFAULT_G4_MIN_CANDIDATE_BLOCKS),
    };
    config.g4_min_candidate_blocks = Some(blocks);
    blocks
}

/// How many blocks are flushed at once.
pub fn flush_batch_size(config: &mut SlotConfig, env: &SlotEnv) -> (size: usize)
    ensures
        size == old(config).read(*env).flush_batch_size,
        *final(config) == old(config).read(*env),
{
    config.ensure_init(env);
    config.flush_batch_size
}

/// Sets how many blocks are flushed at once.
pub fn set_flush_batch_size(config: &mut SlotConfig, size: usize)
    ensures
        *final(config) == (SlotConfig { flush_batch_size: size, ..*old(config) }),
{
    config.flush_batch_size = size;
}

/// The environment is read once: whatever it holds later changes nothing.
pub proof fn environment_is_read_once(config: SlotConfig, first: SlotEnv, later: SlotEnv)
    ensures
        config.read(first).read(later) == config.read(first),
{
}

/// What is set after the environment was read stays.
pub proof fn later_settings_stay(config: SlotConfig, env: SlotEnv, secs: u64, size: usize)
    ensures
        ({
            let set = SlotConfig {
                g4_transfer_timeout_secs: secs,
                flush_batch_size: size,
                ..config.read(env)
            };
            set.read(env) == set
        }),
{
}

} // verus!
