use vstd::prelude::*;
use crate::debounce::FailurePolicy;

verus! {

/// Why a configuration cannot start the control loop.
#[derive(Clone, Copy, Debug, PartialEq, Eq, Structural)]
pub enum ConfigError {
    EmptyInputTopic,
    EmptyOutputTopic,
    EmptyBrokerHost,
    InvertedBounds,
    ZeroTickInterval,
    ZeroLivenessTimeout,
    /// A setpoint or gain is not a finite number.
    NonFiniteParameter,
}

/// Transport settings of the live controller.
pub struct RunArgs {
    pub input_topic: String,
    pub output_topic: String,
    pub mqtt_host: String,
    pub mqtt_port: u16,
}

/// Settings of the offline replay.
pub struct SimulateArgs {
    pub input_file: String,
}

/// The first problem with transport settings, in the order they are checked.
pub open spec fn run_args_problem(input: Seq<char>, output: Seq<char>, host: Seq<char>) -> Option<
    ConfigError,
> {
    if input.len() == 0 {
        Some(ConfigError::EmptyInputTopic)
    } else if output.len() == 0 {
        Some(ConfigError::EmptyOutputTopic)
    } else if host.len() == 0 {
        Some(ConfigError::EmptyBrokerHost)
    } else {
        None
    }
}

impl RunArgs {
    /// Rejects empty topics or broker host.
    pub fn validate(&self) -> (r: Result<(), ConfigError>)
        ensures
            r == match run_args_problem(self.input_topic@, self.output_topic@, self.mqtt_host@) {
                Some(e) => Err(e),
                None => Ok(()),
            },
    {
        if self.input_topic.as_str().is_empty() {
            Err(ConfigError::EmptyInputTopic)
        } else if self.output_topic.as_str().is_empty() {
            Err(ConfigError::EmptyOutputTopic)
        } else if self.mqtt_host.as_str().is_empty() {
            Err(ConfigError::EmptyBrokerHost)
        } else {
            Ok(())
        }
    }
}

/// Timing and output settings of the control loop, fixed for the process lifetime.
#[derive(Clone, Copy, Debug, PartialEq, Eq)]
pub struct LoopConfig {
    pub min_output: u8,
    pub max_output: u8,
    pub tick_ms: u64,
    pub liveness_timeout_ms: u64,
    pub failure_policy: FailurePolicy,
}

/// The first problem with loop settings, in the order they are checked.
pub open spec fn loop_config_problem(c: LoopConfig) -> Option<ConfigError> {
    if c.min_output > c.max_output {
        Some(ConfigError::InvertedBounds)
    } else if c.tick_ms == 0 {
        Some(ConfigError::ZeroTickInterval)
    } else if c.liveness_timeout_ms == 0 {
        Some(ConfigError::ZeroLivenessTimeout)
    } else {
        None
    }
}

impl LoopConfig {
    /// Output in [0, 100], a tick every second, a 30 s liveness timeout, and
    /// a failed publish retried on the next tick.
    pub fn standard() -> (r: LoopConfig)
        ensures
            r.min_output == 0,
            r.max_output == 100,
            r.tick_ms == 1000,
            r.liveness_timeout_ms == 30000,
            r.failure_policy == FailurePolicy::RetryOnNextTick,
    {
        LoopConfig {
            min_output: 0,
            max_output: 100,
            tick_ms: 1000,
            liveness_timeout_ms: 30000,
            failure_policy: FailurePolicy::RetryOnNextTick,
        }
    }

    /// Rejects inverted output bounds and zero intervals.
    pub fn validate(&self) -> (r: Result<(), ConfigError>)
        ensures
            r == match loop_config_problem(*self) {
                Some(e) => Err(e),
                None => Ok(()),
            },
    {
        if self.min_output > self.max_output {
            Err(ConfigError::InvertedBounds)
        } else if self.tick_ms == 0 {
            Err(ConfigError::ZeroTickInterval)
        } else if self.liveness_timeout_ms == 0 {
            Err(ConfigError::ZeroLivenessTimeout)
        } else {
            Ok(())
        }
    }
}

} // verus!
