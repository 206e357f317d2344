use depgraph::batch::{
    concurrency_limit, failure_count, file_id, job_outcome, run_batch, trim_line, ConfigError,
    Limiter, Outcome,
};

fn jobs() -> Vec<(String, Result<String, String>)> {
    vec![
        ("a.js".to_string(), Ok("import x from './x';".to_string())),
        ("b.js".to_string(), Ok("import {".to_string())),
        ("c.js".to_string(), Ok("export * from './c';".to_string())),
        ("d.ts".to_string(), Ok("export type { T } from './t';".to_string())),
    ]
}

#[test]
fn one_syntax_error_gives_one_failure() {
    let out = run_batch(4, jobs());
    assert_eq!(out.len(), 4);
    assert_eq!(failure_count(&out), 1);
    assert!(matches!(out[1].1, Outcome::Failed(_)));
    assert!(matches!(out[0].1, Outcome::Deps(_)));
    assert!(matches!(out[2].1, Outcome::Deps(_)));
    assert!(matches!(out[3].1, Outcome::Deps(_)));
}

#[test]
fn capacity_one_and_thousand_agree() {
    assert_eq!(run_batch(1, jobs()), run_batch(1000, jobs()));
}

#[test]
fn read_failure_is_that_files_outcome() {
    let out = job_outcome("gone.js", Err("can not open file gone.js".to_string()));
    assert_eq!(out, Outcome::Failed("can not open file gone.js".to_string()));
}

#[test]
fn concurrency_settings() {
    assert_eq!(concurrency_limit(None), Ok(1000));
    assert_eq!(concurrency_limit(Some("4")), Ok(4));
    assert_eq!(concurrency_limit(Some("0")), Err(ConfigError::Zero));
    assert_eq!(concurrency_limit(Some("")), Err(ConfigError::NotANumber));
    assert_eq!(concurrency_limit(Some("4x")), Err(ConfigError::NotANumber));
    assert_eq!(concurrency_limit(Some("-1")), Err(ConfigError::NotANumber));
    assert_eq!(
        concurrency_limit(Some("99999999999999999999999")),
        Err(ConfigError::TooLarge)
    );
    assert_eq!(concurrency_limit(Some("18446744073709551615")), Ok(usize::MAX));
}

#[test]
fn input_lines_are_trimmed() {
    assert_eq!(file_id("  src/a.js \r"), Some("src/a.js".to_string()));
    assert_eq!(file_id("\u{3000}b.ts\t"), Some("b.ts".to_string()));
    assert_eq!(file_id("   "), None);
    assert_eq!(file_id(""), None);
    assert_eq!(trim_line(" a b "), "a b");
}

#[test]
fn limiter_serves_waiters_in_order() {
    let mut l = Limiter::new(2);
    assert!(l.acquire(1));
    assert!(l.acquire(2));
    assert!(!l.acquire(3));
    assert!(!l.acquire(4));
    assert_eq!(l.waiting(), 2);
    assert_eq!(l.release(), Some(3));
    assert_eq!(l.release(), Some(4));
    assert_eq!(l.in_use(), 2);
    assert_eq!(l.release(), None);
    assert_eq!(l.in_use(), 1);
    assert!(l.acquire(5));
}

#[test]
fn small_capacity_keeps_input_order() {
    let out = run_batch(2, jobs());
    let names: Vec<&str> = out.iter().map(|(n, _)| n.as_str()).collect();
    assert_eq!(names, vec!["a.js", "b.js", "c.js", "d.ts"]);
}
