//! Process-wide settings read from `physure.conf`.
//!
//! Each setting has a value configured for the whole process and, on top of it,
//! an optional override scoped to the current thread. The override wins while it
//! is in force; a scope hands back a guard holding the override it replaced, and
//! restoring that guard puts the earlier state back, so scopes nest.
//!
//! The state lives in a [`Settings`] value; the program keeps one per process and
//! one override slot per thread.

use vstd::prelude::*;

verus! {

/// The default of [`parallel_threshold`].
pub const DEFAULT_PARALLEL_THRESHOLD: usize = 10_000;

/// The default of [`max_loop_iterations`].
pub const DEFAULT_MAX_LOOP_ITERATIONS: usize = 1_000_000;

/// The default of [`max_pipeline_steps`].
pub const DEFAULT_MAX_PIPELINE_STEPS: usize = 1_000;

/// One setting: the configured value and the scoped override, if any.
#[derive(Clone, Copy, Debug, PartialEq, Eq)]
pub struct Setting {
    pub configured: usize,
    pub override_value: Option<usize>,
}

/// The value in force: the override if there is one, else the configured value.
pub open spec fn setting_value(s: Setting) -> usize {
    match s.override_value {
        Some(v) => v,
        None => s.configured,
    }
}

/// The state after scoping `n`, and the override the scope replaced.
pub open spec fn scope_spec(s: Setting, n: usize) -> (Setting, Option<usize>) {
    (Setting { configured: s.configured, override_value: Some(n) }, s.override_value)
}

/// The state after a guard holding `previous` is restored.
pub open spec fn restore_spec(s: Setting, previous: Option<usize>) -> Setting {
    Setting { configured: s.configured, override_value: previous }
}

impl Setting {
    /// A setting configured to `value`, with no override.
    pub fn new(value: usize) -> (r: Setting)
        ensures
            r.configured == value,
            r.override_value is None,
    {
        Setting { configured: value, override_value: None }
    }

    /// The value in force.
    pub fn get(&self) -> (r: usize)
        ensures
            r == setting_value(*self),
    {
        match self.override_value {
            Some(v) => v,
            None => self.configured,
        }
    }

    /// Replaces the configured value, returning the one it replaced.
    pub fn set(&mut self, n: usize) -> (r: usize)
        ensures
            r == old(self).configured,
            final(self).configured == n,
            final(self).override_value == old(self).override_value,
    {
        let previous = self.configured;
        self.configured = n;
        previous
    }

    /// Puts `n` in force as the override, returning the override it replaced.
    pub fn scope(&mut self, n: usize) -> (r: Option<usize>)
        ensures
            (*final(self), r) == scope_spec(*old(self), n),
    {
        let previous = self.override_value;
        self.override_value = Some(n);
        previous
    }

    /// Puts back the override a scope replaced.
    pub fn restore(&mut self, previous: Option<usize>)
        ensures
            *final(self) == restore_spec(*old(self), previous),
    {
        self.override_value = previous;
    }
}

/// The engine's settings.
#[derive(Clone, Copy, Debug, PartialEq, Eq)]
pub struct Settings {
    pub parallel_threshold: Setting,
    pub max_loop_iterations: Setting,
    pub max_pipeline_steps: Setting,
}

impl Settings {
    /// Every setting at its default, with no override.
    pub fn new() -> (r: Settings)
        ensures
            r.parallel_threshold == (Setting { configured: DEFAULT_PARALLEL_THRESHOLD, override_value: None }),
            r.max_loop_iterations == (Setting { configured: DEFAULT_MAX_LOOP_ITERATIONS, override_value: None }),
            r.max_pipeline_steps == (Setting { configured: DEFAULT_MAX_PIPELINE_STEPS, override_value: None }),
    {
        Settings {
            parallel_threshold: Setting::new(DEFAULT_PARALLEL_THRESHOLD),
            max_loop_iterations: Setting::new(DEFAULT_MAX_LOOP_ITERATIONS),
            max_pipeline_steps: Setting::new(DEFAULT_MAX_PIPELINE_STEPS),
        }
    }
}

/// Restores the parallel threshold that was in force before its [`scoped`] call.
pub struct ThresholdGuard(pub Option<usize>);

/// Restores the loop-iteration ceiling that was in force before its
/// [`scoped_max_loop_iterations`] call.
pub struct MaxLoopIterationsGuard(pub Option<usize>);

/// Restores the pipeline-step ceiling that was in force before its
/// [`scoped_max_pipeline_steps`] call.
pub struct MaxPipelineStepsGuard(pub Option<usize>);

/// Minimum element count at which a `for`-expression switches from sequential
/// to parallel evaluation: the scoped override if there is one, else the value
/// configured for the process.
pub fn parallel_threshold(s: &Settings) -> (r: usize)
    ensures
        r == setting_value(s.parallel_threshold),
{
    s.parallel_threshold.get()
}

/// Sets the process-wide threshold, returning the one it replaced.
pub fn set_parallel_threshold(s: &mut Settings, n: usize) -> (r: usize)
    ensures
        r == old(s).parallel_threshold.configured,
        final(s).parallel_threshold == (Setting { configured: n, ..old(s).parallel_threshold }),
        final(s).max_loop_iterations == old(s).max_loop_iterations,
        final(s).max_pipeline_steps == old(s).max_pipeline_steps,
{
    s.parallel_threshold.set(n)
}

/// Overrides the threshold until the guard is restored.
pub fn scoped(s: &mut Settings, n: usize) -> (g: ThresholdGuard)
    ensures
        (final(s).parallel_threshold, g.0) == scope_spec(old(s).parallel_threshold, n),
        final(s).max_loop_iterations == old(s).max_loop_iterations,
        final(s).max_pipeline_steps == old(s).max_pipeline_steps,
{
    ThresholdGuard(s.parallel_threshold.scope(n))
}

impl ThresholdGuard {
    /// Puts back the threshold override that was in force before the scope.
    pub fn restore(self, s: &mut Settings)
        ensures
            final(s).parallel_threshold == restore_spec(old(s).parallel_threshold, self.0),
            final(s).max_loop_iterations == old(s).max_loop_iterations,
            final(s).max_pipeline_steps == old(s).max_pipeline_steps,
    {
        s.parallel_threshold.restore(self.0);
    }
}

/// Ceiling on how many elements a single `for`-expression range or
/// `parallel_map` input may materialize at once.
pub fn max_loop_iterations(s: &Settings) -> (r: usize)
    ensures
        r == setting_value(s.max_loop_iterations),
{
    s.max_loop_iterations.get()
}

/// Sets the process-wide loop-iteration ceiling, returning the one it replaced.
pub fn set_max_loop_iterations(s: &mut Settings, n: usize) -> (r: usize)
    ensures
        r == old(s).max_loop_iterations.configured,
        final(s).max_loop_iterations == (Setting { configured: n, ..old(s).max_loop_iterations }),
        final(s).parallel_threshold == old(s).parallel_threshold,
        final(s).max_pipeline_steps == old(s).max_pipeline_steps,
{
    s.max_loop_iterations.set(n)
}

/// Overrides the loop-iteration ceiling until the guard is restored.
pub fn scoped_max_loop_iterations(s: &mut Settings, n: usize) -> (g: MaxLoopIterationsGuard)
    ensures
        (final(s).max_loop_iterations, g.0) == scope_spec(old(s).max_loop_iterations, n),
        final(s).parallel_threshold == old(s).parallel_threshold,
        final(s).max_pipeline_steps == old(s).max_pipeline_steps,
{
    MaxLoopIterationsGuard(s.max_loop_iterations.scope(n))
}

impl MaxLoopIterationsGuard {
    /// Puts back the ceiling override that was in force before the scope.
    pub fn restore(self, s: &mut Settings)
        ensures
            final(s).max_loop_iterations == restore_spec(old(s).max_loop_iterations, self.0),
            final(s).parallel_threshold == old(s).parallel_threshold,
            final(s).max_pipeline_steps == old(s).max_pipeline_steps,
    {
        s.max_loop_iterations.restore(self.0);
    }
}

/// Ceiling on how many steps a single pipeline execution may run.
pub fn max_pipeline_steps(s: &Settings) -> (r: usize)
    ensures
        r == setting_value(s.max_pipeline_steps),
{
    s.max_pipeline_steps.get()
}

/// Sets the process-wide pipeline-step ceiling, returning the one it replaced.
pub fn set_max_pipeline_steps(s: &mut Settings, n: usize) -> (r: usize)
    ensures
        r == old(s).max_pipeline_steps.configured,
        final(s).max_pipeline_steps == (Setting { configured: n, ..old(s).max_pipeline_steps }),
        final(s).parallel_threshold == old(s).parallel_threshold,
        final(s).max_loop_iterations == old(s).max_loop_iterations,
{
    s.max_pipeline_steps.set(n)
}

/// Overrides the pipeline-step ceiling until the guard is restored.
pub fn scoped_max_pipeline_steps(s: &mut Settings, n: usize) -> (g: MaxPipelineStepsGuard)
    ensures
        (final(s).max_pipeline_steps, g.0) == scope_spec(old(s).max_pipeline_steps, n),
        final(s).parallel_threshold == old(s).parallel_threshold,
        final(s).max_loop_iterations == old(s).max_loop_iterations,
{
    MaxPipelineStepsGuard(s.max_pipeline_steps.scope(n))
}

impl MaxPipelineStepsGuard {
    /// Puts back the ceiling override that was in force before the scope.
    pub fn restore(self, s: &mut Settings)
        ensures
            final(s).max_pipeline_steps == restore_spec(old(s).max_pipeline_steps, self.0),
            final(s).parallel_threshold == old(s).parallel_threshold,
            final(s).max_loop_iterations == old(s).max_loop_iterations,
    {
        s.max_pipeline_steps.restore(self.0);
    }
}

/// A scoped override takes precedence while it is in force, and restoring its
/// guard brings back exactly the state before the scope, so nested scopes unwind
/// in order.
pub proof fn lemma_scope_then_restore(s: Setting, n: usize)
    ensures
        setting_value(scope_spec(s, n).0) == n,
        restore_spec(scope_spec(s, n).0, scope_spec(s, n).1) == s,
{
}

/// Setting the configured value is seen by the next read unless an override is
/// in force, and setting it back restores the previous state.
pub proof fn lemma_set_then_read(s: Setting, n: usize)
    ensures
        s.override_value is None ==> setting_value((Setting { configured: n, ..s })) == n,
        (Setting { configured: s.configured, ..(Setting { configured: n, ..s }) }) == s,
{
}

/// Changing the configured value does not change what a thread with an override
/// in force reads.
pub proof fn lemma_override_shadows_configured(s: Setting, n: usize)
    requires
        s.override_value is Some,
    ensures
        setting_value((Setting { configured: n, ..s })) == setting_value(s),
{
}

} // verus!
