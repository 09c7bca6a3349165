//! The scheduler model, the numeric token parser, staging plans and the
//! run summary.

use cargo_regression::decimal::Dec;
use cargo_regression::numtok::parse_dec;
use cargo_regression::regression::{summarize, State, TestExitCode, TestResult};
use cargo_regression::sched::Scheduler;
use cargo_regression::staging::{staging_plan, test_workdir};

#[test]
fn scheduler_keeps_the_budget() {
    let mut s = Scheduler::new(3);
    assert!(s.try_acquire(2));
    // admitting two more units would exceed the budget of three
    assert!(!s.try_acquire(2));
    assert!(s.try_acquire(1));
    assert_eq!(s.used, 3);
    s.release(2);
    assert_eq!(s.used, 1);
    assert!(s.try_acquire(2));
}

#[test]
fn scheduler_admits_up_to_budget_only() {
    let mut s = Scheduler::new(1);
    assert!(s.try_acquire(1));
    assert!(!s.try_acquire(1));
    s.release(1);
    assert!(s.try_acquire(1));
}

#[test]
fn parse_plain_and_fractional_tokens() {
    assert_eq!(parse_dec(b"42"), Some(Dec { neg: false, mant: 42, exp: 0 }));
    assert_eq!(parse_dec(b"-3.25"), Some(Dec { neg: true, mant: 325, exp: -2 }));
    assert_eq!(parse_dec(b"+.5"), Some(Dec { neg: false, mant: 5, exp: -1 }));
    assert_eq!(parse_dec(b"-3.14e-2"), Some(Dec { neg: true, mant: 314, exp: -4 }));
    assert_eq!(parse_dec(b"2E3"), Some(Dec { neg: false, mant: 2, exp: 3 }));
    assert_eq!(parse_dec(b"007"), Some(Dec { neg: false, mant: 7, exp: 0 }));
}

#[test]
fn parse_rejects_malformed_tokens() {
    assert_eq!(parse_dec(b""), None);
    assert_eq!(parse_dec(b"-"), None);
    assert_eq!(parse_dec(b"1."), None);
    assert_eq!(parse_dec(b"."), None);
    assert_eq!(parse_dec(b"1e"), None);
    assert_eq!(parse_dec(b"1e+"), None);
    assert_eq!(parse_dec(b"12x"), None);
    assert_eq!(parse_dec(b"x12"), None);
}

#[test]
fn sign_of_zero_is_kept() {
    // a negatively signed zero tolerance counts as negative
    let d = parse_dec(b"-0.0").unwrap();
    assert!(d.neg);
    assert_eq!(d.mant, 0);
}

#[test]
fn workdir_strips_the_root_prefix() {
    assert_eq!(test_workdir("tmp", "demo", "demo/sub/a.sh"), "tmp/sub/a.sh");
    assert_eq!(test_workdir("tmp", "demo/", "demo/a.sh"), "tmp/a.sh");
    assert_eq!(test_workdir("tmp", "demo", "elsewhere/a.sh"), "tmp/elsewhere/a.sh");
}

#[test]
fn staging_links_siblings_by_prefix() {
    let entries = vec![
        String::from("case1.sh"),
        String::from("case1.input"),
        String::from("case2.sh"),
    ];
    let plan = staging_plan(
        "demo",
        "tmp/case1.sh",
        "case1",
        &vec![String::from("shared.dat")],
        &vec![true],
        &entries,
        true,
    );
    let pairs: Vec<(String, String)> =
        plan.iter().map(|l| (l.original.clone(), l.link.clone())).collect();
    assert_eq!(
        pairs,
        vec![
            (
                String::from("demo/__golden__"),
                String::from("tmp/case1.sh/__golden__")
            ),
            (
                String::from("demo/shared.dat"),
                String::from("tmp/case1.sh/shared.dat")
            ),
            (
                String::from("demo/case1.sh"),
                String::from("tmp/case1.sh/case1.sh")
            ),
            (
                String::from("demo/case1.input"),
                String::from("tmp/case1.sh/case1.input")
            ),
        ]
    );
}

#[test]
fn absent_extern_files_are_not_linked() {
    let plan = staging_plan(
        "demo",
        "tmp/w",
        "zzz",
        &vec![String::from("a"), String::from("b")],
        &vec![false, true],
        &vec![],
        false,
    );
    assert_eq!(plan.len(), 1);
    assert_eq!(plan[0].original, "demo/b");
}

#[test]
fn summary_counts_each_state() {
    let states = vec![
        State::Passed(Some(5)),
        State::Ignored,
        State::FilteredOut,
        State::Failed(Some((
            cargo_regression::regression::FailedState::ReportSaved(String::from("r")),
            7,
        ))),
        State::Passed(Some(2)),
    ];
    let r = summarize(states);
    assert_eq!(r.count_ok, 2);
    assert_eq!(r.count_ignored, 1);
    assert_eq!(r.count_filtered, 1);
    assert_eq!(r.faileds.len(), 1);
}

#[test]
fn exit_status_reflects_failures() {
    let ok = TestExitCode {
        outcome: Ok(TestResult {
            count_ok: 2,
            count_ignored: 0,
            count_filtered: 0,
            faileds: vec![],
        }),
        elapsed_ms: 1234,
    };
    let (line, success) = ok.report_line();
    assert!(success);
    assert_eq!(line, "test result: ok. 2 passed; 0 failed; 0 ignored; 0 filtered out; finished in 1.23s");
    let failed = TestExitCode {
        outcome: Ok(TestResult {
            count_ok: 1,
            count_ignored: 0,
            count_filtered: 0,
            faileds: vec![cargo_regression::regression::FailedState::ReportSaved(
                String::from("r"),
            )],
        }),
        elapsed_ms: 10,
    };
    assert!(!failed.report_line().1);
    let build_err = TestExitCode {
        outcome: Err(vec![]),
        elapsed_ms: 0,
    };
    assert!(!build_err.report_line().1);
}

#[test]
fn state_lines_are_worded_like_the_harness() {
    assert_eq!(State::Passed(None).display_string(), "ok");
    assert_eq!(State::Passed(Some(1500)).display_string(), "1.50s ok");
    assert_eq!(State::Ignored.display_string(), "ignored");
    assert_eq!(State::FilteredOut.display_string(), "filtered out");
}
