//! The assertion engine: equality, match counts, value tolerances and
//! artifact selection.

use cargo_regression::assert_engine::{
    select_artifacts, Assert, ArtifactRef, Golden, GoldenInput,
};
use cargo_regression::assert_rules::{
    check_exit, AssertConfig, AssertError, Match, ProcOutput, Value,
};
use cargo_regression::decimal::Dec;

fn cfg() -> AssertConfig {
    AssertConfig { epsilon: Dec { neg: false, mant: 1, exp: -10 } }
}

fn golden_equal() -> Golden {
    Golden {
        file: String::from("a.sh.stdout"),
        equal: Some(true),
        match_rules: None,
        value_rules: None,
        custom: None,
    }
}

#[test]
fn equal_roundtrip_passes() {
    let g = golden_equal();
    let out = b"ok\n".to_vec();
    let (errs, customs) = g.check(&cfg(), "a.sh.stdout", Some(&out.clone()), out.as_slice());
    assert_eq!(errs.len(), 0);
    assert_eq!(customs.len(), 0);
}

#[test]
fn equal_mismatch_reports_diff() {
    let g = golden_equal();
    let out = b"ok\n".to_vec();
    let gold = b"fail\n".to_vec();
    let (errs, _) = g.check(&cfg(), "a.sh.stdout", Some(&gold), out.as_slice());
    assert_eq!(errs.len(), 1);
    match &errs[0] {
        AssertError::Eq { file_name, diffs } => {
            assert_eq!(file_name, "a.sh.stdout");
            // the rendered diff shows both sides
            assert!(diffs.contains("fail"));
            assert!(diffs.contains("ok"));
        }
        other => panic!("unexpected error {:?}", other),
    }
}

#[test]
fn equal_missing_golden_fails() {
    let g = golden_equal();
    let out = b"ok\n".to_vec();
    let (errs, _) = g.check(&cfg(), "a.sh.stdout", None, out.as_slice());
    assert_eq!(errs.len(), 1);
    assert!(matches!(&errs[0], AssertError::UnableToRead(f) if f == "a.sh.stdout"));
}

fn match_rule(pattern: &str, count: Option<usize>, most: Option<usize>, least: Option<usize>) -> Match {
    Match {
        pattern: String::from(pattern),
        count,
        count_at_most: most,
        count_at_least: least,
    }
}

#[test]
fn match_count_exact() {
    let text = b"ok one ok two ok";
    // exactly three occurrences: passes
    assert!(match_rule("ok", Some(3), None, None).check("f", text).is_none());
    // any other exact count fails
    assert!(match_rule("ok", Some(2), None, None).check("f", text).is_some());
    assert!(match_rule("ok", Some(4), None, None).check("f", text).is_some());
}

#[test]
fn match_count_bounds() {
    let text = b"ok one ok two ok";
    assert!(match_rule("ok", None, None, Some(3)).check("f", text).is_none());
    assert!(match_rule("ok", None, None, Some(4)).check("f", text).is_some());
    assert!(match_rule("ok", None, Some(3), None).check("f", text).is_none());
    assert!(match_rule("ok", None, Some(2), None).check("f", text).is_some());
}

#[test]
fn match_zero_or_two_bounds_is_config_error() {
    let text = b"ok";
    assert!(matches!(
        match_rule("ok", None, None, None).check("f", text),
        Some(AssertError::CountConfig)
    ));
    assert!(matches!(
        match_rule("ok", Some(1), Some(1), None).check("f", text),
        Some(AssertError::CountConfig)
    ));
}

#[test]
fn match_reports_lines() {
    let text = b"a\nok\n\nok tail";
    let r = match_rule("ok", Some(1), None, None).check("f", text);
    match r {
        Some(AssertError::Match(_, rep)) => {
            assert_eq!(rep.found.len(), 2);
            assert_eq!(rep.found[0].0, 2);
            assert_eq!(rep.found[1].0, 4);
        }
        other => panic!("unexpected {:?}", other),
    }
}

#[test]
fn bad_regex_is_reported() {
    let text = b"x";
    let r = match_rule("(", Some(1), None, None).check("f", text);
    assert!(matches!(r, Some(AssertError::Regex(_))));
}

fn value_rule(before: Option<&str>, after: Option<&str>, v: Option<Dec>, eps: Option<Dec>) -> Value {
    Value {
        pattern_before: before.map(String::from),
        pattern_after: after.map(String::from),
        value: v,
        value_at_most: None,
        value_at_least: None,
        epsilon: eps,
    }
}

#[test]
fn valuematch() {
    // the numeric token between the surrounding patterns is captured
    let text = b"Values -3.14e-2 aaa";
    let want = Dec { neg: true, mant: 314, exp: -4 };
    let v = value_rule(Some("Values"), Some("aaa"), Some(want), None);
    let errs = v.check(&cfg(), "f", text);
    assert_eq!(errs.len(), 0);
}

#[test]
fn value_within_epsilon_passes() {
    let text = b"time: 1.05 s";
    // want 1.0 with epsilon 0.1: 1.05 lies within
    let want = Dec { neg: false, mant: 1, exp: 0 };
    let eps = Dec { neg: false, mant: 1, exp: -1 };
    let v = value_rule(Some("time:"), None, Some(want), Some(eps));
    assert_eq!(v.check(&cfg(), "f", text).len(), 0);
}

#[test]
fn value_outside_epsilon_fails() {
    let text = b"time: 1.25 s";
    let want = Dec { neg: false, mant: 1, exp: 0 };
    let eps = Dec { neg: false, mant: 1, exp: -1 };
    let v = value_rule(Some("time:"), None, Some(want), Some(eps));
    let errs = v.check(&cfg(), "f", text);
    assert_eq!(errs.len(), 1);
}

#[test]
fn value_boundary_is_within() {
    // exactly want + epsilon still passes: the interval is closed
    let text = b"time: 1.1";
    let want = Dec { neg: false, mant: 1, exp: 0 };
    let eps = Dec { neg: false, mant: 1, exp: -1 };
    let v = value_rule(Some("time:"), None, Some(want), Some(eps));
    assert_eq!(v.check(&cfg(), "f", text).len(), 0);
}

#[test]
fn value_negative_epsilon_is_always_an_error() {
    // even with a perfectly matching value
    let text = b"time: 1.0";
    let want = Dec { neg: false, mant: 1, exp: 0 };
    let eps = Dec { neg: true, mant: 0, exp: 0 };
    let v = value_rule(Some("time:"), None, Some(want), Some(eps));
    let errs = v.check(&cfg(), "f", text);
    assert_eq!(errs.len(), 1);
}

#[test]
fn value_one_sided_bounds() {
    let text = b"n = 5";
    let mk = |least: Option<Dec>, most: Option<Dec>| Value {
        pattern_before: Some(String::from("n =")),
        pattern_after: None,
        value: None,
        value_at_most: most,
        value_at_least: least,
        epsilon: Some(Dec { neg: false, mant: 0, exp: 0 }),
    };
    let four = Dec { neg: false, mant: 4, exp: 0 };
    let six = Dec { neg: false, mant: 6, exp: 0 };
    assert_eq!(mk(Some(four), None).check(&cfg(), "f", text).len(), 0);
    assert_eq!(mk(Some(six), None).check(&cfg(), "f", text).len(), 1);
    assert_eq!(mk(None, Some(six)).check(&cfg(), "f", text).len(), 0);
    assert_eq!(mk(None, Some(four)).check(&cfg(), "f", text).len(), 1);
}

#[test]
fn value_no_capture_fails() {
    let text = b"nothing here";
    let want = Dec { neg: false, mant: 1, exp: 0 };
    let v = value_rule(Some("time:"), None, Some(want), None);
    let errs = v.check(&cfg(), "f", text);
    assert_eq!(errs.len(), 1);
}

#[test]
fn exit_code_check() {
    assert!(check_exit(None, Some(0)).is_none());
    assert!(check_exit(None, Some(1)).is_some());
    assert!(check_exit(Some(2), Some(2)).is_none());
    assert!(check_exit(Some(2), Some(0)).is_some());
    // termination by signal has no code and always fails
    assert!(check_exit(None, None).is_some());
}

#[test]
fn artifacts_stdout_literal_and_glob() {
    let files = vec![
        String::from("a.sh.stdout"),
        String::from("run.log"),
        String::from("other.txt"),
    ];
    let name = String::from("a");
    let ext = String::from("sh");
    // both the stem-based and the full-file-name stream literals resolve
    // to the captured streams
    let r = select_artifacts(&String::from("a.stdout"), &name, &ext, &files).unwrap();
    assert!(matches!(r.as_slice(), [ArtifactRef::Stdout]));
    let r = select_artifacts(&String::from("a.sh.stdout"), &name, &ext, &files).unwrap();
    assert!(matches!(r.as_slice(), [ArtifactRef::Stdout]));
    let r = select_artifacts(&String::from("a.sh.stderr"), &name, &ext, &files).unwrap();
    assert!(matches!(r.as_slice(), [ArtifactRef::Stderr]));
    let r = select_artifacts(&String::from("*.log"), &name, &ext, &files).unwrap();
    match r.as_slice() {
        [ArtifactRef::File(f)] => assert_eq!(f, "run.log"),
        other => panic!("unexpected {:?}", other),
    }
    assert!(select_artifacts(&String::from("[bad"), &name, &ext, &files).is_err());
}

#[test]
fn whole_assert_block_collects_everything() {
    // an exit failure and a golden failure are both collected
    let a = Assert {
        exit_code: None,
        golden: Some(vec![golden_equal()]),
    };
    let inputs = vec![Ok(vec![GoldenInput {
        file_name: String::from("a.sh.stdout"),
        content: b"ok\n".to_vec(),
        golden: Some(b"fail\n".to_vec()),
    }])];
    let (errs, _) = a.check(&cfg(), Some(3), &inputs);
    assert_eq!(errs.len(), 2);
    // the exit mismatch stands first
    assert!(matches!(&errs[0], AssertError::ExitCode { want: 0, got: 3 }));
    // a rule matching no artifact is itself one failure, naming the rule
    let a2 = Assert {
        exit_code: None,
        golden: Some(vec![golden_equal()]),
    };
    let (errs2, _) = a2.check(&cfg(), Some(0), &vec![Ok(vec![])]);
    assert_eq!(errs2.len(), 1);
    assert!(matches!(&errs2[0], AssertError::UnableToRead(f) if f == "a.sh.stdout"));
    // a rejected pattern is itself one failure, carrying the rejection
    let a3 = Assert {
        exit_code: None,
        golden: Some(vec![golden_equal()]),
    };
    let (errs3, _) = a3.check(&cfg(), Some(0), &vec![Err(String::from("unclosed bracket"))]);
    assert_eq!(errs3.len(), 1);
    assert!(matches!(&errs3[0], AssertError::PatternError(m) if m == "unclosed bracket"));
}

#[test]
fn custom_rules_become_invocations() {
    let g = Golden {
        file: String::from("a.sh.stdout"),
        equal: None,
        match_rules: None,
        value_rules: None,
        custom: Some(vec![cargo_regression::assert_rules::Custom {
            cmd: String::from("checker"),
            envs: Some(vec![(String::from("K"), String::from("V"))]),
        }]),
    };
    let out = b"x".to_vec();
    let (errs, customs) = g.check(&cfg(), "a.sh.stdout", Some(&out.clone()), out.as_slice());
    assert_eq!(errs.len(), 0);
    assert_eq!(customs.len(), 1);
    assert_eq!(customs[0].cmd, "checker");
    assert_eq!(customs[0].produced, "a.sh.stdout");
    assert_eq!(customs[0].golden_path, "__golden__/a.sh.stdout");
    assert_eq!(customs[0].envs[0].0, "epsilon");
    assert_eq!(customs[0].envs[1], (String::from("K"), String::from("V")));
    // a verifier that exits non-zero fails the rule
    let out = ProcOutput { code: Some(1), stdout: vec![], stderr: vec![] };
    assert!(cargo_regression::assert_engine::custom_judge(customs[0].clone(), out, "a.sh.stdout")
        .is_some());
    let ok = ProcOutput { code: Some(0), stdout: vec![], stderr: vec![] };
    assert!(cargo_regression::assert_engine::custom_judge(customs[0].clone(), ok, "a.sh.stdout")
        .is_none());
}

#[test]
fn reports_carry_the_captured_text() {
    // the failure report decodes and shows the matched occurrences
    let text = b"ok here";
    let r = match_rule("ok", Some(0), None, None).check("f", text).unwrap();
    let report = cargo_regression::report::err_string(&r);
    assert!(report.contains("want 0, got: 1"));
    assert!(report.contains("#1 at line 1: ok"));
}
