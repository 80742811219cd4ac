//! Scrape target configuration, modelled with plain values: durations are
//! nanosecond counts, URLs and HTTP method names are byte strings.

use vstd::prelude::*;

verus! {

/// The default per-call deadline when a target names none: two seconds.
pub const DEFAULT_TIMEOUT_NANOS: u64 = 2_000_000_000;

/// What calling a target does: an HTTP request or a subprocess run.
#[derive(Debug, Clone, PartialEq, Eq)]
pub enum Action {
    /// An HTTP request to `url`, with `method` defaulting to GET when absent.
    Http { method: Option<Vec<u8>>, url: Vec<u8> },
    /// Run `command` with `args`, capturing stdout and stderr.
    Command { command: Vec<u8>, args: Vec<Vec<u8>> },
}

impl Action {
    /// An HTTP GET of `url`.
    pub fn http(url: Vec<u8>) -> (r: Action)
        ensures
            r == (Action::Http { method: Option::<Vec<u8>>::None, url }),
    {
        Action::Http { method: None, url }
    }

    /// An HTTP request of `url` with an explicit method.
    pub fn http_with_method(url: Vec<u8>, method: Vec<u8>) -> (r: Action)
        ensures
            r == (Action::Http { method: Option::Some(method), url }),
    {
        Action::Http { method: Some(method), url }
    }

    /// Run `command` with no arguments.
    pub fn command(command: Vec<u8>) -> (r: Action)
        ensures
            r matches Action::Command { command: c, args } && c == command && args@.len() == 0,
    {
        Action::Command { command, args: Vec::new() }
    }

    /// Run `command` with `args`.
    pub fn command_with_args(command: Vec<u8>, args: Vec<Vec<u8>>) -> (r: Action)
        ensures
            r == (Action::Command { command, args }),
    {
        Action::Command { command, args }
    }
}

/// One target's immutable configuration. `interval` and `timeout` are
/// nanosecond counts; `interval` must be positive for the schedule to be
/// meaningful, and `timeout` falls back to [`DEFAULT_TIMEOUT_NANOS`].
#[derive(Debug, Clone, PartialEq, Eq)]
pub struct ScrapeTargetConfig {
    pub interval: u64,
    pub timeout: Option<u64>,
    pub action: Action,
}

impl ScrapeTargetConfig {
    /// The per-call deadline: the configured timeout, or the default.
    pub open spec fn spec_effective_timeout(&self) -> u64 {
        match self.timeout {
            Some(t) => t,
            None => DEFAULT_TIMEOUT_NANOS,
        }
    }

    /// The per-call deadline: the configured timeout, or the default.
    pub fn effective_timeout(&self) -> (r: u64)
        ensures
            r == self.spec_effective_timeout(),
    {
        match self.timeout {
            Some(t) => t,
            None => DEFAULT_TIMEOUT_NANOS,
        }
    }
}

/// The whole agent's configuration: one entry per scrape target.
#[derive(Debug, Clone)]
pub struct Config {
    pub scrape_targets: Vec<ScrapeTargetConfig>,
}

impl Config {
    /// A configuration with no targets.
    pub fn new() -> (r: Config)
        ensures
            r.scrape_targets@.len() == 0,
    {
        Config { scrape_targets: Vec::new() }
    }

    /// Append one target.
    pub fn add_target(&mut self, t: ScrapeTargetConfig)
        ensures
            final(self).scrape_targets@ == old(self).scrape_targets@.push(t),
    {
        self.scrape_targets.push(t);
    }
}

/// Builds a [`ScrapeTargetConfig`] field by field. `build` demands that an
/// interval and an action were set; the timeout may stay unset.
#[derive(Debug)]
pub struct ScrapeTargetBuilder {
    interval: Option<u64>,
    timeout: Option<u64>,
    action: Option<Action>,
}

impl ScrapeTargetBuilder {
    pub closed spec fn spec_interval(&self) -> Option<u64> {
        self.interval
    }

    pub closed spec fn spec_timeout(&self) -> Option<u64> {
        self.timeout
    }

    pub closed spec fn spec_action(&self) -> Option<Action> {
        self.action
    }

    /// A builder with nothing set.
    pub fn new() -> (r: ScrapeTargetBuilder)
        ensures
            r.spec_interval() is None,
            r.spec_timeout() is None,
            r.spec_action() is None,
    {
        ScrapeTargetBuilder { interval: None, timeout: None, action: None }
    }

    /// Set the interval between scheduled calls, in nanoseconds.
    pub fn interval(self, d: u64) -> (r: ScrapeTargetBuilder)
        ensures
            r.spec_interval() == Some(d),
            r.spec_timeout() == self.spec_timeout(),
            r.spec_action() == self.spec_action(),
    {
        ScrapeTargetBuilder { interval: Some(d), ..self }
    }

    /// Set the per-call deadline, in nanoseconds.
    pub fn timeout(self, d: u64) -> (r: ScrapeTargetBuilder)
        ensures
            r.spec_interval() == self.spec_interval(),
            r.spec_timeout() == Some(d),
            r.spec_action() == self.spec_action(),
    {
        ScrapeTargetBuilder { timeout: Some(d), ..self }
    }

    /// Set the action.
    pub fn action(self, a: Action) -> (r: ScrapeTargetBuilder)
        ensures
            r.spec_interval() == self.spec_interval(),
            r.spec_timeout() == self.spec_timeout(),
            r.spec_action() == Some(a),
    {
        ScrapeTargetBuilder { action: Some(a), ..self }
    }

    /// Produce the configuration. An interval and an action must have been
    /// set.
    pub fn build(self) -> (r: ScrapeTargetConfig)
        requires
            self.spec_interval() is Some,
            self.spec_action() is Some,
        ensures
            Some(r.interval) == self.spec_interval(),
            r.timeout == self.spec_timeout(),
            Some(r.action) == self.spec_action(),
    {
        let interval = match self.interval {
            Some(d) => d,
            None => vstd::pervasive::unreached(),
        };
        let action = match self.action {
            Some(a) => a,
            None => vstd::pervasive::unreached(),
        };
        ScrapeTargetConfig { interval, timeout: self.timeout, action }
    }
}

} // verus!
