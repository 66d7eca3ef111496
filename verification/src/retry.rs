//! The retry budget of an output.
use crate::error::OutputError;
use crate::props::{
    duration_nanos, first_block, get_block, get_positive_int, get_string, get_word,
    parse_duration, positive_int_at, string_at, word_at, Property,
};
use crate::text::text_eq;
use vstd::prelude::*;

verus! {

/// How the wait between attempts grows.
#[derive(Debug, Clone, Copy, PartialEq, Eq, Structural)]
pub enum BackoffStrategy {
    Fixed,
    Exponential,
}

/// How often and how patiently a failed write is tried again. Waits are in
/// nanoseconds.
#[derive(Debug, Clone, Copy, PartialEq, Eq, Structural)]
pub struct RetryConfig {
    pub max_attempts: u32,
    pub initial_wait: u64,
    pub max_wait: u64,
    pub backoff: BackoffStrategy,
}

impl RetryConfig {
    /// The wait after a wait of `wait`: the same, or twice as long up to the limit.
    pub open spec fn wait_after(self, wait: u64) -> u64 {
        match self.backoff {
            BackoffStrategy::Fixed => wait,
            BackoffStrategy::Exponential => if 2 * wait <= self.max_wait {
                (2 * wait) as u64
            } else {
                self.max_wait
            },
        }
    }

    /// The wait before the attempt with this number, the first retry being 0.
    pub open spec fn nth_wait(self, k: nat) -> u64
        decreases k,
    {
        if k == 0 {
            self.initial_wait
        } else {
            self.wait_after(self.nth_wait((k - 1) as nat))
        }
    }

    /// The wait after a wait of `wait`.
    pub fn next_wait(&self, wait: u64) -> (next: u64)
        ensures
            next == self.wait_after(wait),
    {
        match self.backoff {
            BackoffStrategy::Fixed => wait,
            BackoffStrategy::Exponential => {
                match wait.checked_mul(2) {
                    Some(doubled) => if doubled <= self.max_wait {
                        doubled
                    } else {
                        self.max_wait
                    },
                    None => self.max_wait,
                }
            },
        }
    }
}

/// A wait setting: the default where it is missing.
pub open spec fn wait_setting(props: Seq<Property>, key: Seq<char>, default: u64) -> Result<
    u64,
    Seq<char>,
> {
    match string_at(props, key) {
        None => Ok(default),
        Some(s) => match duration_nanos(s) {
            Some(nanos) => Ok(nanos),
            None => Err("invalid duration '"@ + s + "'"@),
        },
    }
}

/// Reads a wait setting.
pub fn parse_wait(props: &[Property], key: &str, default: u64) -> (r: Result<u64, OutputError>)
    ensures
        match r {
            Ok(wait) => wait_setting(props@, key@, default) == Ok::<u64, Seq<char>>(wait),
            Err(e) => wait_setting(props@, key@, default) == Err::<u64, Seq<char>>(e@),
        },
{
    match get_string(props, key) {
        None => Ok(default),
        Some(s) => parse_duration(s.as_str()),
    }
}

/// What the `retry` block of an output is read as, over the given defaults.
pub open spec fn retry_result(props: Seq<Property>, defaults: RetryConfig) -> Result<
    RetryConfig,
    Seq<char>,
> {
    match first_block(props, "retry"@) {
        None => Ok(defaults),
        Some(block) => match positive_int_at(block, "max_attempts"@) {
            Err(e) => Err(e),
            Ok(attempts) => {
                let max_attempts: Option<u32> = match attempts {
                    None => Some(defaults.max_attempts),
                    Some(n) => if n <= u32::MAX {
                        Some(n as u32)
                    } else {
                        None
                    },
                };
                match (
                    max_attempts,
                    wait_setting(block, "initial_wait"@, defaults.initial_wait),
                    wait_setting(block, "max_wait"@, defaults.max_wait),
                ) {
                    (None, _, _) => Err("'max_attempts' is too large"@),
                    (Some(_), Err(e), _) => Err(e),
                    (Some(_), Ok(_), Err(e)) => Err(e),
                    (Some(max_attempts), Ok(initial_wait), Ok(max_wait)) => match word_at(
                        block,
                        "backoff"@,
                    ) {
                        None => Ok(
                            RetryConfig {
                                max_attempts,
                                initial_wait,
                                max_wait,
                                backoff: defaults.backoff,
                            },
                        ),
                        Some(word) => if word == "fixed"@ {
                            Ok(
                                RetryConfig {
                                    max_attempts,
                                    initial_wait,
                                    max_wait,
                                    backoff: BackoffStrategy::Fixed,
                                },
                            )
                        } else if word == "exponential"@ {
                            Ok(
                                RetryConfig {
                                    max_attempts,
                                    initial_wait,
                                    max_wait,
                                    backoff: BackoffStrategy::Exponential,
                                },
                            )
                        } else {
                            Err("unknown backoff '"@ + word + "'"@)
                        },
                    },
                }
            },
        },
    }
}

impl RetryConfig {
    /// Reads the `retry` block of an output over the given defaults.
    pub fn from_output_properties(props: &[Property], defaults: RetryConfig) -> (r: Result<
        RetryConfig,
        OutputError,
    >)
        ensures
            match r {
                Ok(config) => retry_result(props@, defaults) == Ok::<RetryConfig, Seq<char>>(
                    config,
                ),
                Err(e) => retry_result(props@, defaults) == Err::<RetryConfig, Seq<char>>(e@),
            },
    {
        let block = match get_block(props, "retry") {
            None => {
                return Ok(defaults);
            },
            Some(block) => block.as_slice(),
        };
        let max_attempts: u32 = match get_positive_int(block, "max_attempts") {
            Err(e) => {
                return Err(e);
            },
            Ok(None) => defaults.max_attempts,
            Ok(Some(n)) => {
                if n <= 0xffff_ffff {
                    n as u32
                } else {
                    return Err(OutputError::new("'max_attempts' is too large"));
                }
            },
        };
        let initial_wait: u64 = match parse_wait(block, "initial_wait", defaults.initial_wait) {
            Ok(wait) => wait,
            Err(e) => {
                return Err(e);
            },
        };
        let max_wait: u64 = match parse_wait(block, "max_wait", defaults.max_wait) {
            Ok(wait) => wait,
            Err(e) => {
                return Err(e);
            },
        };
        let backoff = match get_word(block, "backoff") {
            None => defaults.backoff,
            Some(word) => {
                if text_eq(word.as_str(), "fixed") {
                    BackoffStrategy::Fixed
                } else if text_eq(word.as_str(), "exponential") {
                    BackoffStrategy::Exponential
                } else {
                    return Err(
                        OutputError {
                            message: crate::error::cat3("unknown backoff '", word.as_str(), "'"),
                        },
                    );
                }
            },
        };
        Ok(RetryConfig { max_attempts, initial_wait, max_wait, backoff })
    }
}

/// Two to the power `k`.
pub open spec fn pow2(k: nat) -> nat
    decreases k,
{
    if k == 0 {
        1
    } else {
        2 * pow2((k - 1) as nat)
    }
}

/// An exponential wait doubles with every retry until it reaches the limit, and
/// never passes it once the first retry is over; a fixed wait stays as it is.
pub proof fn law_waits_double_up_to_the_limit(config: RetryConfig, k: nat)
    requires
        config.initial_wait <= config.max_wait,
    ensures
        config.nth_wait(k) <= config.max_wait,
        config.backoff is Fixed ==> config.nth_wait(k) == config.initial_wait,
        config.backoff is Exponential ==> config.nth_wait(k) == (if config.initial_wait * pow2(k)
            <= config.max_wait {
            (config.initial_wait * pow2(k)) as u64
        } else {
            config.max_wait
        }),
    decreases k,
{
    if k > 0 {
        let j = (k - 1) as nat;
        law_waits_double_up_to_the_limit(config, j);
        let i = config.initial_wait as int;
        let p = pow2(j) as int;
        assert(i * (2 * p) == 2 * (i * p)) by (nonlinear_arith);
        assert(i * p >= 0) by (nonlinear_arith)
            requires
                i >= 0,
                p >= 0,
        ;
    } else {
        assert(config.initial_wait * 1 == config.initial_wait);
    }
}

} // verus!
