//! Run outcomes: build errors that abort a run before any test executes,
//! per-test states, and the aggregated result with its exit status.

use crate::assert_rules::AssertError;
use crate::strutil::{millis_to_secs_string, usize_to_string};
use vstd::prelude::*;

verus! {

/// The reserved name of the golden-artifacts directory, skipped during
/// traversal and linked read-only into each staged working directory.
pub fn golden_dir_name() -> (r: &'static str)
    ensures
        r@ == "__golden__"@,
{
    "__golden__"
}

/// An error that aborts the whole run before any test executes. All build
/// errors across the tree are collected and reported together.
#[derive(Debug)]
pub enum BuildError {
    /// A configuration file did not parse; the path and the parser's words.
    Toml(String, String),
    /// A test asks for more permits than the run owns: path, asked, owned.
    PermitEcxceed(String, u32, u32),
    /// A required setting is missing: path and setting name.
    MissConfig(String, String),
    /// A file could not be read: path and the system's words.
    UnableToRead(String, String),
    /// A directory could not be read: path and the system's words.
    ReadDir(String, String),
    /// The shared working directory could not be cleaned: path and cause.
    CleanDir(String, String),
    /// A fragment claims the configuration language's own extension; the
    /// fragment's path.
    InputExtToml(String),
}

/// How a failed test reports: a persisted report file, or the errors kept
/// inline.
#[derive(Debug)]
pub enum FailedState {
    ReportSaved(String),
    NoReport(String, Vec<AssertError>),
}

/// A test case's outcome. Durations are in milliseconds.
#[derive(Debug)]
pub enum State {
    Passed(Option<u64>),
    Failed(Option<(FailedState, u64)>),
    Ignored,
    FilteredOut,
}

impl State {
    /// The plain status line text; the surrounding application may color
    /// it.
    pub fn display_string(&self) -> (r: String)
        ensures
            self matches State::Passed(None) ==> r@ == "ok"@,
            self matches State::Passed(Some(ms)) ==> r@ == crate::strutil::spec_secs_str(ms as int)
                + "s ok"@,
            self matches State::Failed(Some((f, ms))) ==> r@ == crate::strutil::spec_secs_str(
                ms as int,
            ) + "s FAILED"@,
            self matches State::Failed(None) ==> r@ == "FAILED"@,
            self is Ignored ==> r@ == "ignored"@,
            self is FilteredOut ==> r@ == "filtered out"@,
    {
        match self {
            State::Passed(None) => String::from_str("ok"),
            State::Passed(Some(ms)) => {
                let mut s = millis_to_secs_string(*ms);
                s.append("s ok");
                s
            },
            State::Failed(Some((_, ms))) => {
                let mut s = millis_to_secs_string(*ms);
                s.append("s FAILED");
                s
            },
            State::Failed(None) => String::from_str("FAILED"),
            State::Ignored => String::from_str("ignored"),
            State::FilteredOut => String::from_str("filtered out"),
        }
    }
}

/// The run's counts and the collected failures.
#[derive(Debug)]
pub struct TestResult {
    pub count_ok: usize,
    pub count_ignored: usize,
    pub count_filtered: usize,
    pub faileds: Vec<FailedState>,
}

pub open spec fn count_ok_spec(s: Seq<State>) -> int
    decreases s.len(),
{
    if s.len() == 0 {
        0
    } else {
        count_ok_spec(s.drop_last()) + if s.last() is Passed {
            1int
        } else {
            0int
        }
    }
}

pub open spec fn count_ignored_spec(s: Seq<State>) -> int
    decreases s.len(),
{
    if s.len() == 0 {
        0
    } else {
        count_ignored_spec(s.drop_last()) + if s.last() is Ignored {
            1int
        } else {
            0int
        }
    }
}

pub open spec fn count_filtered_spec(s: Seq<State>) -> int
    decreases s.len(),
{
    if s.len() == 0 {
        0
    } else {
        count_filtered_spec(s.drop_last()) + if s.last() is FilteredOut {
            1int
        } else {
            0int
        }
    }
}

pub open spec fn count_failed_spec(s: Seq<State>) -> int
    decreases s.len(),
{
    if s.len() == 0 {
        0
    } else {
        count_failed_spec(s.drop_last()) + if s.last() is Failed {
            1int
        } else {
            0int
        }
    }
}

/// Folds the per-test states into the run's counts; every failure's
/// report is kept.
pub fn summarize(states: Vec<State>) -> (r: TestResult)
    requires
        states@.len() < usize::MAX,
    ensures
        r.count_ok == count_ok_spec(states@),
        r.count_ignored == count_ignored_spec(states@),
        r.count_filtered == count_filtered_spec(states@),
        r.faileds@.len() == count_failed_spec(states@),
{
    let mut count_ok: usize = 0;
    let mut count_ignored: usize = 0;
    let mut count_filtered: usize = 0;
    let mut faileds: Vec<FailedState> = Vec::new();
    let n = states.len();
    let mut states = states;
    let mut i: usize = 0;
    proof {
        assert(states@.take(0) =~= Seq::<State>::empty());
        lemma_counts_bound(states@);
    }
    let ghost all = states@;
    // consume from the front, keeping the remainder's view tied to `all`
    while i < n
        invariant
            i <= n == all.len() < usize::MAX,
            states@ =~= all.skip(i as int),
            count_ok == count_ok_spec(all.take(i as int)),
            count_ignored == count_ignored_spec(all.take(i as int)),
            count_filtered == count_filtered_spec(all.take(i as int)),
            faileds@.len() == count_failed_spec(all.take(i as int)),
        decreases n - i,
    {
        proof {
            assert(all.take(i + 1).drop_last() =~= all.take(i as int));
            assert(all.take(i + 1).last() == all[i as int]);
            lemma_counts_bound(all.take(i as int));
            lemma_counts_bound(all);
            lemma_counts_mono(all, i as int);
            assert(states@[0] == all[i as int]);
        }
        let st = states.remove(0);
        match st {
            State::Passed(_) => {
                count_ok += 1;
            },
            State::Ignored => {
                count_ignored += 1;
            },
            State::FilteredOut => {
                count_filtered += 1;
            },
            State::Failed(detail) => {
                match detail {
                    Some((fs, _)) => faileds.push(fs),
                    None => faileds.push(
                        FailedState::NoReport(String::new(), Vec::new()),
                    ),
                }
            },
        }
        i += 1;
        proof {
            assert(states@ =~= all.skip(i as int));
        }
    }
    proof {
        assert(all.take(n as int) =~= all);
    }
    TestResult { count_ok, count_ignored, count_filtered, faileds }
}

proof fn lemma_counts_bound(s: Seq<State>)
    ensures
        0 <= count_ok_spec(s) <= s.len(),
        0 <= count_ignored_spec(s) <= s.len(),
        0 <= count_filtered_spec(s) <= s.len(),
        0 <= count_failed_spec(s) <= s.len(),
    decreases s.len(),
{
    if s.len() > 0 {
        lemma_counts_bound(s.drop_last());
    }
}

proof fn lemma_counts_mono(s: Seq<State>, i: int)
    requires
        0 <= i <= s.len(),
    ensures
        count_ok_spec(s.take(i)) <= count_ok_spec(s),
        count_ignored_spec(s.take(i)) <= count_ignored_spec(s),
        count_filtered_spec(s.take(i)) <= count_filtered_spec(s),
    decreases s.len() - i,
{
    if i < s.len() {
        assert(s.take(i + 1).drop_last() =~= s.take(i));
        assert(s.take(s.len() as int) =~= s);
        lemma_counts_mono(s, i + 1);
    } else {
        assert(s.take(i) =~= s);
    }
}

/// The run's final outcome: the aggregated result, or the collected build
/// errors; beside it the run's wall time in milliseconds.
#[derive(Debug)]
pub struct TestExitCode {
    pub outcome: Result<TestResult, Vec<BuildError>>,
    pub elapsed_ms: u64,
}

impl TestExitCode {
    /// The run succeeded: no build error and no failed test.
    pub open spec fn spec_success(self) -> bool {
        match self.outcome {
            Ok(r) => r.faileds@.len() == 0,
            Err(_) => false,
        }
    }

    /// The closing summary line and whether the process exits cleanly:
    /// success exactly when the configuration built and no test failed.
    pub fn report_line(&self) -> (r: (String, bool))
        ensures
            r.1 == self.spec_success(),
    {
        match &self.outcome {
            Ok(res) => {
                let ok = res.faileds.len() == 0;
                let mut s = String::from_str("test result: ");
                if ok {
                    s.append("ok");
                } else {
                    s.append("FAILED");
                }
                s.append(". ");
                let c1 = usize_to_string(res.count_ok);
                s.append(c1.as_str());
                s.append(" passed; ");
                let c2 = usize_to_string(res.faileds.len());
                s.append(c2.as_str());
                s.append(" failed; ");
                let c3 = usize_to_string(res.count_ignored);
                s.append(c3.as_str());
                s.append(" ignored; ");
                let c4 = usize_to_string(res.count_filtered);
                s.append(c4.as_str());
                s.append(" filtered out; finished in ");
                let t = millis_to_secs_string(self.elapsed_ms);
                s.append(t.as_str());
                s.append("s");
                (s, ok)
            },
            Err(_) => (String::from_str("Fail to build test:"), false),
        }
    }
}

} // verus!
