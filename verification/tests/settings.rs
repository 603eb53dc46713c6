use physure::settings::{
    max_loop_iterations, max_pipeline_steps, parallel_threshold, scoped, scoped_max_loop_iterations,
    scoped_max_pipeline_steps, set_max_loop_iterations, set_max_pipeline_steps, set_parallel_threshold,
    Settings, DEFAULT_MAX_LOOP_ITERATIONS, DEFAULT_MAX_PIPELINE_STEPS, DEFAULT_PARALLEL_THRESHOLD,
};

#[test]
fn set_parallel_threshold_returns_previous_and_updates() {
    let mut s = Settings::new();
    let original = set_parallel_threshold(&mut s, 42);
    assert_eq!(parallel_threshold(&s), 42);
    let previous = set_parallel_threshold(&mut s, original);
    assert_eq!(previous, 42);
}

#[test]
fn scoped_override_takes_precedence_and_restores_on_drop() {
    let mut s = Settings::new();
    let baseline = parallel_threshold(&s);
    {
        let guard = scoped(&mut s, 99);
        assert_eq!(parallel_threshold(&s), 99);
        {
            let inner_guard = scoped(&mut s, 55);
            assert_eq!(parallel_threshold(&s), 55);
            inner_guard.restore(&mut s);
        }
        assert_eq!(parallel_threshold(&s), 99);
        guard.restore(&mut s);
    }
    assert_eq!(parallel_threshold(&s), baseline);
}

#[test]
fn set_max_loop_iterations_returns_previous_and_updates() {
    let mut s = Settings::new();
    let original = set_max_loop_iterations(&mut s, 42);
    assert_eq!(max_loop_iterations(&s), 42);
    let previous = set_max_loop_iterations(&mut s, original);
    assert_eq!(previous, 42);
}

#[test]
fn scoped_max_loop_iterations_takes_precedence_and_restores_on_drop() {
    let mut s = Settings::new();
    let baseline = max_loop_iterations(&s);
    {
        let guard = scoped_max_loop_iterations(&mut s, 99);
        assert_eq!(max_loop_iterations(&s), 99);
        {
            let inner_guard = scoped_max_loop_iterations(&mut s, 55);
            assert_eq!(max_loop_iterations(&s), 55);
            inner_guard.restore(&mut s);
        }
        assert_eq!(max_loop_iterations(&s), 99);
        guard.restore(&mut s);
    }
    assert_eq!(max_loop_iterations(&s), baseline);
}

#[test]
fn set_max_pipeline_steps_returns_previous_and_updates() {
    let mut s = Settings::new();
    let original = set_max_pipeline_steps(&mut s, 7);
    assert_eq!(max_pipeline_steps(&s), 7);
    let previous = set_max_pipeline_steps(&mut s, original);
    assert_eq!(previous, 7);
}

#[test]
fn scoped_max_pipeline_steps_takes_precedence_and_restores_on_drop() {
    let mut s = Settings::new();
    let baseline = max_pipeline_steps(&s);
    {
        let guard = scoped_max_pipeline_steps(&mut s, 3);
        assert_eq!(max_pipeline_steps(&s), 3);
        {
            let inner_guard = scoped_max_pipeline_steps(&mut s, 1);
            assert_eq!(max_pipeline_steps(&s), 1);
            inner_guard.restore(&mut s);
        }
        assert_eq!(max_pipeline_steps(&s), 3);
        guard.restore(&mut s);
    }
    assert_eq!(max_pipeline_steps(&s), baseline);
}

#[test]
fn defaults_are_the_documented_values() {
    let s = Settings::new();
    assert_eq!(parallel_threshold(&s), DEFAULT_PARALLEL_THRESHOLD);
    assert_eq!(parallel_threshold(&s), 10_000);
    assert_eq!(max_loop_iterations(&s), DEFAULT_MAX_LOOP_ITERATIONS);
    assert_eq!(max_loop_iterations(&s), 1_000_000);
    assert_eq!(max_pipeline_steps(&s), DEFAULT_MAX_PIPELINE_STEPS);
    assert_eq!(max_pipeline_steps(&s), 1_000);
}

#[test]
fn a_set_under_a_scope_shows_after_the_scope_ends() {
    let mut s = Settings::new();
    let guard = scoped(&mut s, 5);
    let previous = set_parallel_threshold(&mut s, 77);
    assert_eq!(previous, DEFAULT_PARALLEL_THRESHOLD);
    assert_eq!(parallel_threshold(&s), 5);
    guard.restore(&mut s);
    assert_eq!(parallel_threshold(&s), 77);
}
