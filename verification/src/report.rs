//! Assembly of a test's outcome and the text of its failure report. Both
//! are pinned: the outcome mapping is exact, and every report text equals
//! a spec-level rendering of the collected errors.

use crate::assert_rules::{
    cond_str, AssertError, CustomReport, MatchCond, MatchReport, ValueReport,
};
use crate::config::FullConfig;
use crate::patterns::{lossy_decoded, lossy_string};
use crate::regression::{FailedState, State};
use crate::strutil::{
    dec_to_string, i64_to_string, spec_dec_str, spec_digits, spec_int_str, usize_to_string,
};
use vstd::prelude::*;

verus! {

/// The path of the dumped resolved configuration, written in debug mode.
pub fn debug_config_path(workdir: &str, name: &str) -> (r: String)
    ensures
        r@ == workdir@ + "/__debug__."@ + name@ + ".toml"@,
{
    let mut s = String::from_str(workdir);
    s.append("/__debug__.");
    s.append(name);
    s.append(".toml");
    s
}

impl FullConfig {
    /// The outcome decided before any command runs: a filtered-out test
    /// never reaches scheduling, an ignored one is skipped.
    pub fn pre_state(&self) -> (r: Option<State>)
        ensures
            self.filtered ==> (r matches Some(State::FilteredOut)),
            !self.filtered && self.ignore.inner ==> (r matches Some(State::Ignored)),
            !self.filtered && !self.ignore.inner ==> r is None,
    {
        if self.filtered {
            Some(State::FilteredOut)
        } else if self.ignore.inner {
            Some(State::Ignored)
        } else {
            None
        }
    }
}

/// Decides a finished test's state. No failure yields a pass with the
/// elapsed time. With failures, inline printing keeps the errors beside
/// the test's path; otherwise the persisted report is referenced, and a
/// failed write falls back to the inline form with the write error
/// appended.
pub fn finish_state(
    errs: Vec<AssertError>,
    print_errs: bool,
    path: &str,
    report_path: &str,
    write_err: Option<String>,
    elapsed_ms: u64,
) -> (r: State)
    ensures
        errs@.len() == 0 ==> (r matches State::Passed(Some(ms)) && ms == elapsed_ms),
        errs@.len() > 0 && print_errs ==> (r matches State::Failed(Some((
            FailedState::NoReport(p, es),
            ms,
        ))) && p@ == path@ && es@ == errs@ && ms == elapsed_ms),
        errs@.len() > 0 && !print_errs && write_err is None ==> (r matches State::Failed(Some((
            FailedState::ReportSaved(p),
            ms,
        ))) && p@ == report_path@ && ms == elapsed_ms),
        errs@.len() > 0 && !print_errs && write_err is Some ==> (r matches State::Failed(Some((
            FailedState::NoReport(p, es),
            ms,
        ))) && p@ == path@ && es@.len() == errs@.len() + 1 && ms == elapsed_ms),
{
    if errs.len() == 0 {
        State::Passed(Some(elapsed_ms))
    } else if print_errs {
        State::Failed(Some((FailedState::NoReport(String::from_str(path), errs), elapsed_ms)))
    } else {
        match write_err {
            None => State::Failed(
                Some((FailedState::ReportSaved(String::from_str(report_path)), elapsed_ms)),
            ),
            Some(w) => {
                let mut errs = errs;
                errs.push(AssertError::Write(String::from_str(report_path), w));
                State::Failed(
                    Some((FailedState::NoReport(String::from_str(path), errs), elapsed_ms)),
                )
            },
        }
    }
}

// ------------------------------------------------------------------
// the report texts, each pinned to a spec-level rendering

/// The wording of a bound.
pub open spec fn spec_cond_words(cond: Option<MatchCond>) -> Seq<char> {
    match cond {
        Some(MatchCond::AtLeast) => "at least "@,
        Some(MatchCond::AtMost) => "at most "@,
        None => ""@,
    }
}

/// The wording of a failed value comparison.
pub open spec fn spec_value_report(rep: ValueReport) -> Seq<char> {
    match rep {
        ValueReport::Config => (
        "You should specify one and only one of `value`, `value-at-least`, `value-at-most`"@),
        ValueReport::NegativeEpsilon(eps) => "the epsilon = "@ + spec_dec_str(eps)
            + " is negative"@,
        ValueReport::NoMatch { pattern } => "can not match pattern '"@ + pattern@ + "'"@,
        ValueReport::ParseFloat { line, pattern, matched } => "pattern '"@ + pattern@
            + "' captured '"@ + lossy_decoded(matched@) + "' at line "@ + spec_digits(line as int)
            + ", parse failed"@,
        ValueReport::AssertFail { line, pattern, matched, want_value, got_value, epsilon, cond } => {
            "pattern '"@ + pattern@ + "' captured '"@ + lossy_decoded(matched@) + "' at line "@
                + spec_digits(line as int) + ", want "@ + (match cond {
                Some(MatchCond::AtLeast) => "> "@,
                Some(MatchCond::AtMost) => "< "@,
                None => ""@,
            }) + spec_dec_str(want_value) + (match cond {
                Some(MatchCond::AtLeast) => "-"@,
                Some(MatchCond::AtMost) => "+"@,
                None => "\u{b1}"@,
            }) + spec_dec_str(epsilon) + ", got: "@ + spec_dec_str(got_value)
        },
    }
}

/// The listed occurrences of a failed match rule, numbered with their
/// line numbers.
pub open spec fn spec_found_lines(found: Seq<(usize, Vec<u8>)>) -> Seq<char>
    decreases found.len(),
{
    if found.len() == 0 {
        Seq::<char>::empty()
    } else {
        spec_found_lines(found.drop_last()) + "  #"@ + spec_digits(found.len() as int)
            + " at line "@ + spec_digits(found.last().0 as int) + ": "@ + lossy_decoded(
            found.last().1@,
        ) + "\n"@
    }
}

/// The wording of a failed match rule.
pub open spec fn spec_match_report(rep: MatchReport) -> Seq<char> {
    "pattern '"@ + rep.pattern@ + "' want "@ + spec_cond_words(rep.cond) + spec_digits(
        rep.count as int,
    ) + ", got: "@ + spec_digits(rep.found@.len() as int) + "\n"@ + spec_found_lines(rep.found@)
}

/// The wording of a failed custom rule: the invocation and what the
/// verifier printed.
pub open spec fn spec_custom_report(rep: CustomReport) -> Seq<char> {
    "-- custom --\n"@ + rep.invocation.cmd@ + " "@ + rep.invocation.produced@ + " "@
        + rep.invocation.golden_path@ + "\n-- status --\n"@ + (match rep.output.code {
        Some(c) => spec_int_str(c as int),
        None => "terminated by a signal"@,
    }) + "\n-- stdout --\n"@ + lossy_decoded(rep.output.stdout@) + "\n-- stderr --\n"@
        + lossy_decoded(rep.output.stderr@)
}

/// The wording of one collected failure.
pub open spec fn spec_err_string(e: AssertError) -> Seq<char> {
    match e {
        AssertError::ProcessExec(what, err) => what@ + ":\n"@ + err@,
        AssertError::Executes(what, err) => "execute: "@ + err@ + "\n"@ + what@,
        AssertError::ExitCode { want, got } => "exit code, want: "@ + spec_int_str(want as int)
            + ", got: "@ + spec_int_str(got as int),
        AssertError::UnableToRead(f) => "file \""@ + f@ + "\": Unable to read"@,
        AssertError::UnableToReadDir(d, err) => "dir \""@ + d@ + "\": "@ + err@,
        AssertError::UnableToCreateDir(d, err) => "dir \""@ + d@ + "\": "@ + err@,
        AssertError::UnableToDeleteDir(d, err) => "dir \""@ + d@ + "\": "@ + err@,
        AssertError::LinkFile(from, to, err) => "link \""@ + from@ + "\" to \""@ + to@ + "\": "@
            + err@,
        AssertError::Eq { file_name, diffs } => "file \""@ + file_name@ + "\" not equal\n"@
            + diffs@,
        AssertError::Write(f, err) => "write file \""@ + f@ + "\": "@ + err@,
        AssertError::Terminated(msg) => msg@,
        AssertError::CountConfig => (
        "You should specify one and only one of `count`, `count-at-least`, `count-at-most`"@),
        AssertError::Match(f, rep) => "file \""@ + f@ + "\" match failed\n"@ + spec_match_report(
            rep,
        ),
        AssertError::Value(f, rep) => "file \""@ + f@ + "\" value assert failed\n"@
            + spec_value_report(rep),
        AssertError::Custom(f, rep) => "file \""@ + f@ + "\" custom assert failed\n"@
            + spec_custom_report(*rep),
        AssertError::Regex(msg) => "regular expression: "@ + msg@,
        AssertError::PatternError(msg) => "path pattern: "@ + msg@,
        AssertError::GlobError(msg) => "path: "@ + msg@,
    }
}

/// All collected failures of one test, numbered.
pub open spec fn spec_errors_report(errs: Seq<AssertError>) -> Seq<char>
    decreases errs.len(),
{
    if errs.len() == 0 {
        Seq::<char>::empty()
    } else {
        spec_errors_report(errs.drop_last()) + "==== ERROR "@ + spec_digits(errs.len() as int)
            + " ===\n"@ + spec_err_string(errs.last()) + "\n"@
    }
}

/// A failed test's lines in the final summary.
pub open spec fn spec_failed_state(fs: FailedState) -> Seq<char> {
    match fs {
        FailedState::ReportSaved(report) => "\n     report: "@ + report@,
        FailedState::NoReport(input, errs) => "\n----------- "@ + input@ + " -----------\n"@
            + spec_errors_report(errs@),
    }
}

/// The staging log's entry for one finished hook.
pub open spec fn spec_hook_log(cmd: Seq<char>, ok: bool, stdout: Seq<u8>, stderr: Seq<u8>) -> Seq<
    char,
> {
    if ok {
        "[INFO] "@ + cmd + "\n"@
    } else {
        "[ERROR] "@ + cmd + "\nstdout:\n"@ + lossy_decoded(stdout) + "\nstderr:\n"@
            + lossy_decoded(stderr) + "\n"@
    }
}

/// The wording of a failed value comparison.
fn value_report_string(rep: &ValueReport) -> (r: String)
    ensures
        r@ == spec_value_report(*rep),
{
    match rep {
        ValueReport::Config => String::from_str(
            "You should specify one and only one of `value`, `value-at-least`, `value-at-most`",
        ),
        ValueReport::NegativeEpsilon(eps) => {
            let mut s = String::from_str("the epsilon = ");
            let e = dec_to_string(eps);
            s.append(e.as_str());
            s.append(" is negative");
            s
        },
        ValueReport::NoMatch { pattern } => {
            let mut s = String::from_str("can not match pattern '");
            s.append(pattern.as_str());
            s.append("'");
            s
        },
        ValueReport::ParseFloat { line, pattern, matched } => {
            let mut s = String::from_str("pattern '");
            s.append(pattern.as_str());
            s.append("' captured '");
            let m = lossy_string(matched.as_slice());
            s.append(m.as_str());
            s.append("' at line ");
            let l = usize_to_string(*line);
            s.append(l.as_str());
            s.append(", parse failed");
            s
        },
        ValueReport::AssertFail { line, pattern, matched, want_value, got_value, epsilon, cond } => {
            let mut s = String::from_str("pattern '");
            s.append(pattern.as_str());
            s.append("' captured '");
            let m = lossy_string(matched.as_slice());
            s.append(m.as_str());
            s.append("' at line ");
            let l = usize_to_string(*line);
            s.append(l.as_str());
            s.append(", want ");
            match cond {
                Some(MatchCond::AtLeast) => s.append("> "),
                Some(MatchCond::AtMost) => s.append("< "),
                None => {},
            }
            let w = dec_to_string(want_value);
            s.append(w.as_str());
            match cond {
                Some(MatchCond::AtLeast) => s.append("-"),
                Some(MatchCond::AtMost) => s.append("+"),
                None => s.append("\u{b1}"),
            }
            let e = dec_to_string(epsilon);
            s.append(e.as_str());
            s.append(", got: ");
            let g = dec_to_string(got_value);
            s.append(g.as_str());
            proof {
                reveal_strlit("");
                assert(""@ =~= Seq::<char>::empty());
                assert(s@ =~= spec_value_report(*rep));
            }
            s
        },
    }
}

/// The listed occurrences of a failed match rule.
fn found_lines(found: &Vec<(usize, Vec<u8>)>) -> (r: String)
    ensures
        r@ == spec_found_lines(found@),
{
    let mut s = String::new();
    let n = found.len();
    let mut i: usize = 0;
    proof {
        assert(found@.take(0) =~= Seq::<(usize, Vec<u8>)>::empty());
    }
    while i < n
        invariant
            i <= n == found@.len(),
            s@ == spec_found_lines(found@.take(i as int)),
        decreases n - i,
    {
        proof {
            assert(found@.take(i + 1).drop_last() =~= found@.take(i as int));
            assert(found@.take(i + 1).last() == found@[i as int]);
        }
        s.append("  #");
        let idx = usize_to_string(i + 1);
        s.append(idx.as_str());
        s.append(" at line ");
        let l = usize_to_string(found[i].0);
        s.append(l.as_str());
        s.append(": ");
        let m = lossy_string(found[i].1.as_slice());
        s.append(m.as_str());
        s.append("\n");
        i += 1;
    }
    proof {
        assert(found@.take(n as int) =~= found@);
    }
    s
}

/// One collected failure, worded as in the final report.
#[verifier::rlimit(100)]
pub fn err_string(e: &AssertError) -> (r: String)
    ensures
        r@ == spec_err_string(*e),
{
    match e {
        AssertError::ProcessExec(what, err) => {
            let mut s = String::from_str(what.as_str());
            s.append(":\n");
            s.append(err.as_str());
            s
        },
        AssertError::Executes(what, err) => {
            let mut s = String::from_str("execute: ");
            s.append(err.as_str());
            s.append("\n");
            s.append(what.as_str());
            s
        },
        AssertError::ExitCode { want, got } => {
            let mut s = String::from_str("exit code, want: ");
            let w = i64_to_string(*want as i64);
            s.append(w.as_str());
            s.append(", got: ");
            let g = i64_to_string(*got as i64);
            s.append(g.as_str());
            s
        },
        AssertError::UnableToRead(f) => {
            let mut s = String::from_str("file \"");
            s.append(f.as_str());
            s.append("\": Unable to read");
            s
        },
        AssertError::UnableToReadDir(d, err) => {
            let mut s = String::from_str("dir \"");
            s.append(d.as_str());
            s.append("\": ");
            s.append(err.as_str());
            s
        },
        AssertError::UnableToCreateDir(d, err) => {
            let mut s = String::from_str("dir \"");
            s.append(d.as_str());
            s.append("\": ");
            s.append(err.as_str());
            s
        },
        AssertError::UnableToDeleteDir(d, err) => {
            let mut s = String::from_str("dir \"");
            s.append(d.as_str());
            s.append("\": ");
            s.append(err.as_str());
            s
        },
        AssertError::LinkFile(from, to, err) => {
            let mut s = String::from_str("link \"");
            s.append(from.as_str());
            s.append("\" to \"");
            s.append(to.as_str());
            s.append("\": ");
            s.append(err.as_str());
            s
        },
        AssertError::Eq { file_name, diffs } => {
            let mut s = String::from_str("file \"");
            s.append(file_name.as_str());
            s.append("\" not equal\n");
            s.append(diffs.as_str());
            s
        },
        AssertError::Write(f, err) => {
            let mut s = String::from_str("write file \"");
            s.append(f.as_str());
            s.append("\": ");
            s.append(err.as_str());
            s
        },
        AssertError::Terminated(msg) => String::from_str(msg.as_str()),
        AssertError::CountConfig => String::from_str(
            "You should specify one and only one of `count`, `count-at-least`, `count-at-most`",
        ),
        AssertError::Match(f, rep) => {
            let mut s = String::from_str("file \"");
            s.append(f.as_str());
            s.append("\" match failed\n");
            s.append("pattern '");
            s.append(rep.pattern.as_str());
            s.append("' want ");
            s.append(cond_str(rep.cond));
            let c = usize_to_string(rep.count);
            s.append(c.as_str());
            s.append(", got: ");
            let g = usize_to_string(rep.found.len());
            s.append(g.as_str());
            s.append("\n");
            let lines = found_lines(&rep.found);
            s.append(lines.as_str());
            proof {
                assert(s@ =~= spec_err_string(*e));
            }
            s
        },
        AssertError::Value(f, rep) => {
            let mut s = String::from_str("file \"");
            s.append(f.as_str());
            s.append("\" value assert failed\n");
            let r = value_report_string(rep);
            s.append(r.as_str());
            s
        },
        AssertError::Custom(f, rep) => {
            let mut s = String::from_str("file \"");
            s.append(f.as_str());
            s.append("\" custom assert failed\n");
            s.append("-- custom --\n");
            s.append(rep.invocation.cmd.as_str());
            s.append(" ");
            s.append(rep.invocation.produced.as_str());
            s.append(" ");
            s.append(rep.invocation.golden_path.as_str());
            s.append("\n-- status --\n");
            match rep.output.code {
                Some(c) => {
                    let cs = i64_to_string(c as i64);
                    s.append(cs.as_str());
                },
                None => s.append("terminated by a signal"),
            }
            s.append("\n-- stdout --\n");
            let so = lossy_string(rep.output.stdout.as_slice());
            s.append(so.as_str());
            s.append("\n-- stderr --\n");
            let se = lossy_string(rep.output.stderr.as_slice());
            s.append(se.as_str());
            proof {
                assert(s@ =~= spec_err_string(*e));
            }
            s
        },
        AssertError::Regex(msg) => {
            let mut s = String::from_str("regular expression: ");
            s.append(msg.as_str());
            s
        },
        AssertError::PatternError(msg) => {
            let mut s = String::from_str("path pattern: ");
            s.append(msg.as_str());
            s
        },
        AssertError::GlobError(msg) => {
            let mut s = String::from_str("path: ");
            s.append(msg.as_str());
            s
        },
    }
}

/// All collected failures of one test, numbered as in the persisted
/// report.
pub fn errors_report(errs: &Vec<AssertError>) -> (r: String)
    ensures
        r@ == spec_errors_report(errs@),
{
    let mut s = String::new();
    let n = errs.len();
    let mut i: usize = 0;
    proof {
        assert(errs@.take(0) =~= Seq::<AssertError>::empty());
    }
    while i < n
        invariant
            i <= n == errs@.len(),
            s@ == spec_errors_report(errs@.take(i as int)),
        decreases n - i,
    {
        proof {
            assert(errs@.take(i + 1).drop_last() =~= errs@.take(i as int));
            assert(errs@.take(i + 1).last() == errs@[i as int]);
        }
        s.append("==== ERROR ");
        let idx = usize_to_string(i + 1);
        s.append(idx.as_str());
        s.append(" ===\n");
        let e = err_string(&errs[i]);
        s.append(e.as_str());
        s.append("\n");
        i += 1;
    }
    proof {
        assert(errs@.take(n as int) =~= errs@);
    }
    s
}

/// A failed test's lines in the final summary.
pub fn failed_state_string(fs: &FailedState) -> (r: String)
    ensures
        r@ == spec_failed_state(*fs),
{
    match fs {
        FailedState::ReportSaved(report) => {
            let mut s = String::from_str("\n     report: ");
            s.append(report.as_str());
            s
        },
        FailedState::NoReport(input, errs) => {
            let mut s = String::from_str("\n----------- ");
            s.append(input.as_str());
            s.append(" -----------\n");
            let e = errors_report(errs);
            s.append(e.as_str());
            s
        },
    }
}

/// The staging log's line for one finished hook: a note on success, the
/// hook's own output on failure.
pub fn hook_log_entry(cmd: &str, ok: bool, stdout: &Vec<u8>, stderr: &Vec<u8>) -> (r: String)
    ensures
        r@ == spec_hook_log(cmd@, ok, stdout@, stderr@),
{
    if ok {
        let mut s = String::from_str("[INFO] ");
        s.append(cmd);
        s.append("\n");
        s
    } else {
        let mut s = String::from_str("[ERROR] ");
        s.append(cmd);
        s.append("\nstdout:\n");
        let so = lossy_string(stdout.as_slice());
        s.append(so.as_str());
        s.append("\nstderr:\n");
        let se = lossy_string(stderr.as_slice());
        s.append(se.as_str());
        s.append("\n");
        s
    }
}

} // verus!
