//! Typing text through a virtual keyboard: the key events that type a text with the keymap the
//! compositor hands over, the modifiers held for each key, the Ctrl+Shift+U Unicode input
//! sequence as a fallback, and the pacing of the events.
use vstd::prelude::*;
use vstd::string::StringExecFns;

pub mod keysym;
pub mod typing;
pub mod wayland;
pub mod xkb;

use crate::xkb::unicode_fallback::{spec_unicode_fallback_keys, UnicodeFallbackInitError, UnicodeFallbackKeys};
use crate::typing::TypingOutcome;
use crate::xkb::Xkb;

verus! {

/// Typing in chunks: after every chunk of `size` input characters, the last chunk of a text
/// included even when it is shorter, the queued key events are sent and typing waits `delay`
/// milliseconds.
#[derive(Debug, Clone, Copy, PartialEq, Eq)]
pub struct ChunkPacing {
    pub size: u32,
    pub delay: u64,
}

/// How text is typed. Durations are in milliseconds.
#[derive(Debug, Clone, Copy, PartialEq, Eq)]
pub struct KwtyprConfig {
    /// How long initialization may take before it fails (`None`: no limit).
    pub ready_timeout: Option<u64>,
    /// The wait before typing starts.
    pub initial_delay: u64,
    /// How long each key is held before it is released.
    pub key_hold: u64,
    /// Typing in chunks with a wait after each, or at full speed.
    pub chunk_pacing: Option<ChunkPacing>,
    /// Whether characters without a key are typed with Ctrl+Shift+U.
    pub unicode_fallback: bool,
}

/// The options a user gives, in milliseconds, before they become a configuration.
#[derive(Debug, Clone, Copy, PartialEq, Eq)]
pub struct ConfigOptions {
    pub initial_delay_ms: u64,
    pub character_delay_ms: Option<u64>,
    pub chunk_size: Option<u32>,
    pub chunk_delay_ms: Option<u64>,
    pub key_hold_ms: u64,
    pub unicode_fallback: bool,
    pub ready_timeout_ms: u64,
}

impl ConfigOptions {
    /// A character delay alone, a chunk size together with a chunk delay, or neither; each
    /// of them above zero.
    pub open spec fn valid(self) -> bool {
        match (self.character_delay_ms, self.chunk_size, self.chunk_delay_ms) {
            (Some(delay), None, None) => delay > 0,
            (None, Some(size), Some(delay)) => size > 0 && delay > 0,
            (None, None, None) => true,
            _ => false,
        }
    }

    /// Whether the options go together (see `valid`).
    pub fn is_valid(&self) -> (valid: bool)
        ensures
            valid == self.valid(),
    {
        match (self.character_delay_ms, self.chunk_size, self.chunk_delay_ms) {
            (Some(delay), None, None) => delay > 0,
            (None, Some(size), Some(delay)) => size > 0 && delay > 0,
            (None, None, None) => true,
            _ => false,
        }
    }

    /// The pacing the options ask for: a character delay is a chunk of one character.
    pub open spec fn spec_chunk_pacing(self) -> Option<ChunkPacing> {
        match (self.character_delay_ms, self.chunk_size, self.chunk_delay_ms) {
            (Some(delay), None, None) => Some(ChunkPacing { size: 1, delay }),
            (None, Some(size), Some(delay)) => Some(ChunkPacing { size, delay }),
            _ => None,
        }
    }
}

impl KwtyprConfig {
    /// The configuration of a set of options: the pacing they ask for, and no limit for a ready
    /// timeout of zero.
    pub open spec fn spec_from_options(options: ConfigOptions) -> KwtyprConfig {
        KwtyprConfig {
            ready_timeout: if options.ready_timeout_ms == 0 {
                None
            } else {
                Some(options.ready_timeout_ms)
            },
            initial_delay: options.initial_delay_ms,
            key_hold: options.key_hold_ms,
            chunk_pacing: options.spec_chunk_pacing(),
            unicode_fallback: options.unicode_fallback,
        }
    }

    /// The configuration of a set of options; a ready timeout of zero means no limit.
    pub fn from_options(options: ConfigOptions) -> (config: KwtyprConfig)
        requires
            options.valid(),
        ensures
            config == Self::spec_from_options(options),
            config.initial_delay == options.initial_delay_ms,
            config.key_hold == options.key_hold_ms,
            config.unicode_fallback == options.unicode_fallback,
            config.chunk_pacing == options.spec_chunk_pacing(),
            config.ready_timeout == (if options.ready_timeout_ms == 0 {
                None::<u64>
            } else {
                Some(options.ready_timeout_ms)
            }),
    {
        let chunk_pacing = match (options.character_delay_ms, options.chunk_size, options.chunk_delay_ms) {
            (Some(delay), None, None) => Some(ChunkPacing { size: 1, delay }),
            (None, Some(size), Some(delay)) => Some(ChunkPacing { size, delay }),
            _ => None,
        };
        KwtyprConfig {
            initial_delay: options.initial_delay_ms,
            key_hold: options.key_hold_ms,
            chunk_pacing,
            unicode_fallback: options.unicode_fallback,
            ready_timeout: if options.ready_timeout_ms == 0 {
                None
            } else {
                Some(options.ready_timeout_ms)
            },
        }
    }
}

/// The exit code when initialization or Wayland I/O failed.
pub const FAILURE_EXIT_CODE: u8 = 1;

/// The exit code when typing completed but some characters could not be typed.
pub const PARTIAL_EXIT_CODE: u8 = 2;

/// The exit code of a finished typing run: `0` when every character was typed, `2` otherwise.
pub fn exit_code(outcome: &TypingOutcome) -> (code: u8)
    ensures
        code == match outcome {
            TypingOutcome::Complete => 0u8,
            TypingOutcome::Partial { .. } => PARTIAL_EXIT_CODE,
        },
{
    match outcome {
        TypingOutcome::Complete => 0,
        TypingOutcome::Partial { .. } => PARTIAL_EXIT_CODE,
    }
}

/// A character delay of `d` gives the same configuration as chunks of one character with a chunk
/// delay of `d`, all other options alike.
pub proof fn lemma_character_delay_is_chunk_of_one(a: ConfigOptions, b: ConfigOptions, delay: u64)
    requires
        a.initial_delay_ms == b.initial_delay_ms,
        a.key_hold_ms == b.key_hold_ms,
        a.unicode_fallback == b.unicode_fallback,
        a.ready_timeout_ms == b.ready_timeout_ms,
        a.character_delay_ms == Some(delay),
        a.chunk_size is None,
        a.chunk_delay_ms is None,
        b.character_delay_ms is None,
        b.chunk_size == Some(1u32),
        b.chunk_delay_ms == Some(delay),
    ensures
        KwtyprConfig::spec_from_options(a) == KwtyprConfig::spec_from_options(b),
        delay > 0 ==> a.valid() && b.valid(),
        KwtyprConfig::spec_from_options(a).chunk_pacing == Some(ChunkPacing { size: 1, delay }),
{
}

/// Which option combinations are accepted: a character delay alone, a chunk size of at least one
/// with a chunk delay, or neither, each delay above zero; a character delay together with a
/// chunk option, or a chunk size without a chunk delay (or the reverse), is refused.
pub proof fn lemma_valid_options(options: ConfigOptions)
    ensures
        (options.character_delay_ms is Some && options.character_delay_ms->0 > 0
            && options.chunk_size is None && options.chunk_delay_ms is None) ==> options.valid(),
        (options.character_delay_ms is None && options.chunk_size is Some
            && options.chunk_size->0 >= 1 && options.chunk_delay_ms is Some
            && options.chunk_delay_ms->0 > 0) ==> options.valid(),
        (options.character_delay_ms is None && options.chunk_size is None
            && options.chunk_delay_ms is None) ==> options.valid(),
        (options.character_delay_ms is Some && (options.chunk_size is Some
            || options.chunk_delay_ms is Some)) ==> !options.valid(),
        ((options.chunk_size is Some) != (options.chunk_delay_ms is Some)) ==> !options.valid(),
        (options.valid() && options.character_delay_ms is Some) ==> options.character_delay_ms->0
            > 0,
        (options.valid() && options.chunk_size is Some) ==> options.chunk_size->0 >= 1,
        (options.valid() && options.chunk_delay_ms is Some) ==> options.chunk_delay_ms->0 > 0,
{
}

/// A session that has not reached the ready state yet.
pub struct Uninitialized;

/// Whether characters without a key are typed with the Unicode input sequence.
#[derive(Debug, Clone, Copy, PartialEq, Eq)]
pub enum UnicodeFallback {
    Disabled,
    Enabled(UnicodeFallbackKeys),
}

/// The fallback is off, or its keys are those of the keymap.
pub open spec fn fallback_of(xkb: Xkb, fallback: UnicodeFallback) -> bool {
    match fallback {
        UnicodeFallback::Disabled => true,
        UnicodeFallback::Enabled(keys) => spec_unicode_fallback_keys(&xkb) == Ok::<
            UnicodeFallbackKeys,
            UnicodeFallbackInitError,
        >(keys),
    }
}

/// What typing needs once the keymap has arrived.
pub struct Ready {
    pub xkb: Xkb,
    pub unicode_fallback: UnicodeFallback,
}

impl Ready {
    /// Prepares typing with a keymap: with the fallback enabled, its keys must exist.
    pub fn new(xkb: Xkb, config: &KwtyprConfig) -> (ready: Result<Ready, UnicodeFallbackInitError>)
        ensures
            config.unicode_fallback ==> match spec_unicode_fallback_keys(&xkb) {
                Ok(keys) => ready matches Ok(r) && r.xkb == xkb && r.unicode_fallback
                    == UnicodeFallback::Enabled(keys),
                Err(e) => ready == Err::<Ready, UnicodeFallbackInitError>(e),
            },
            !config.unicode_fallback ==> (ready matches Ok(r) && r.xkb == xkb && r.unicode_fallback
                == UnicodeFallback::Disabled),
            ready matches Ok(r) ==> fallback_of(r.xkb, r.unicode_fallback),
    {
        let unicode_fallback = if config.unicode_fallback {
            match xkb.unicode_fallback_keys() {
                Ok(keys) => UnicodeFallback::Enabled(keys),
                Err(e) => return Err(e),
            }
        } else {
            UnicodeFallback::Disabled
        };
        Ok(Ready { xkb, unicode_fallback })
    }
}

/// The words joined with single spaces.
pub open spec fn spec_join_with_spaces(words: Seq<Seq<char>>) -> Seq<char>
    decreases words.len(),
{
    if words.len() == 0 {
        seq![]
    } else if words.len() == 1 {
        words[0]
    } else {
        spec_join_with_spaces(words.drop_last()) + seq![' '] + words.last()
    }
}

/// The text to type: the words joined with single spaces.
pub fn join_with_spaces(words: &Vec<String>) -> (text: String)
    ensures
        text@ == spec_join_with_spaces(words@.map_values(|w: String| w@)),
{
    let mut text = String::new();
    let ghost views = words@.map_values(|w: String| w@);
    let n = words.len();
    let mut i: usize = 0;
    while i < n
        invariant
            n == words@.len(),
            views == words@.map_values(|w: String| w@),
            0 <= i <= n,
            text@ == spec_join_with_spaces(views.take(i as int)),
        decreases n - i,
    {
        if i != 0 {
            text.append(" ");
        }
        text.append(words[i].as_str());
        proof {
            reveal_strlit(" ");
            assert(views.take(i + 1).drop_last() =~= views.take(i as int));
            assert(views.take(i + 1).last() == words@[i as int]@);
        }
        i = i + 1;
    }
    proof {
        assert(views.take(n as int) =~= views);
    }
    text
}

} // verus!
