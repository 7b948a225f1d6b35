//! The shapes of the configuration that the daemon reads: modes, providers
//! and evaluators.
use vstd::prelude::*;

use crate::json::str_eq;

verus! {

/// A mode: an activation trigger and the providers and evaluators it shows.
#[derive(Debug)]
pub struct ModeConfig {
    pub name: String,
    pub hotkey: String,
    pub providers: Vec<String>,
    pub evaluators: Vec<String>,
}

/// How a command receives its input.
#[derive(Debug, Clone, Copy, PartialEq, Eq, Structural)]
pub enum InputMode {
    Stdin,
    Arg,
}

impl Default for InputMode {
    fn default() -> (r: Self)
        ensures
            r == InputMode::Stdin,
    {
        InputMode::Stdin
    }
}

/// An evaluator: a source re-run on every query, and the action for its items.
#[derive(Debug)]
pub struct EvaluatorConfig {
    pub source: Vec<String>,
    pub input: InputMode,
    pub action: Vec<String>,
    pub action_input: InputMode,
    pub field: String,
}

/// A provider: a source command and the action for its items.
#[derive(Debug)]
pub struct ProviderConfig {
    pub source: Vec<String>,
    pub action: Vec<String>,
    pub field: String,
    /// Seconds between background refreshes; `None` loads on demand.
    pub cache_interval: Option<u64>,
}

/// Window placement.
#[derive(Debug, Clone, Copy, PartialEq, Eq, Structural)]
pub enum WindowMode {
    Normal,
    Fixed,
}

/// The field that an action receives when none is configured.
pub fn default_field() -> (r: String)
    ensures
        r@ == "data"@,
{
    String::from_str("data")
}

/// The modes, providers and evaluators that the daemon knows, by name.
#[derive(Debug)]
pub struct Settings {
    pub modes: Vec<ModeConfig>,
    pub providers: Vec<(String, ProviderConfig)>,
    pub evaluators: Vec<(String, EvaluatorConfig)>,
}

/// The first provider named `name`.
pub open spec fn provider_named(ps: Seq<(String, ProviderConfig)>, name: Seq<char>, i: int) -> Option<
    int,
>
    decreases ps.len() - i,
{
    if i < 0 || i >= ps.len() {
        None
    } else if ps[i].0@ == name {
        Some(i)
    } else {
        provider_named(ps, name, i + 1)
    }
}

/// The first evaluator named `name`.
pub open spec fn evaluator_named(es: Seq<(String, EvaluatorConfig)>, name: Seq<char>, i: int) -> Option<
    int,
>
    decreases es.len() - i,
{
    if i < 0 || i >= es.len() {
        None
    } else if es[i].0@ == name {
        Some(i)
    } else {
        evaluator_named(es, name, i + 1)
    }
}

/// The first mode named `name`.
pub open spec fn mode_named(ms: Seq<ModeConfig>, name: Seq<char>, i: int) -> Option<int>
    decreases ms.len() - i,
{
    if i < 0 || i >= ms.len() {
        None
    } else if ms[i].name@ == name {
        Some(i)
    } else {
        mode_named(ms, name, i + 1)
    }
}

impl Settings {
    /// The position of the provider named `name`.
    pub fn provider_index(&self, name: &str) -> (r: Option<usize>)
        ensures
            match r {
                Some(i) => provider_named(self.providers@, name@, 0) == Some(i as int) && i < self.providers@.len(),
                None => provider_named(self.providers@, name@, 0) is None,
            },
    {
        let mut i: usize = 0;
        while i < self.providers.len()
            invariant
                i <= self.providers@.len(),
                provider_named(self.providers@, name@, 0) == provider_named(
                    self.providers@,
                    name@,
                    i as int,
                ),
            decreases self.providers.len() - i,
        {
            if str_eq(self.providers[i].0.as_str(), name) {
                return Some(i);
            }
            i = i + 1;
        }
        None
    }

    /// The position of the evaluator named `name`.
    pub fn evaluator_index(&self, name: &str) -> (r: Option<usize>)
        ensures
            match r {
                Some(i) => evaluator_named(self.evaluators@, name@, 0) == Some(i as int) && i < self.evaluators@.len(),
                None => evaluator_named(self.evaluators@, name@, 0) is None,
            },
    {
        let mut i: usize = 0;
        while i < self.evaluators.len()
            invariant
                i <= self.evaluators@.len(),
                evaluator_named(self.evaluators@, name@, 0) == evaluator_named(
                    self.evaluators@,
                    name@,
                    i as int,
                ),
            decreases self.evaluators.len() - i,
        {
            if str_eq(self.evaluators[i].0.as_str(), name) {
                return Some(i);
            }
            i = i + 1;
        }
        None
    }

    /// The position of the mode named `name`.
    pub fn mode_index(&self, name: &str) -> (r: Option<usize>)
        ensures
            match r {
                Some(i) => mode_named(self.modes@, name@, 0) == Some(i as int) && i < self.modes@.len(),
                None => mode_named(self.modes@, name@, 0) is None,
            },
    {
        let mut i: usize = 0;
        while i < self.modes.len()
            invariant
                i <= self.modes@.len(),
                mode_named(self.modes@, name@, 0) == mode_named(self.modes@, name@, i as int),
            decreases self.modes.len() - i,
        {
            if str_eq(self.modes[i].name.as_str(), name) {
                return Some(i);
            }
            i = i + 1;
        }
        None
    }
}

} // verus!
