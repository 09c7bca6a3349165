//! The assertion engine: exit-code, equality, regex-match, numeric-value
//! and custom-verifier rules, evaluated against captured output and golden
//! artifacts. Rules never short-circuit: every configured rule is
//! evaluated and every failure is collected.

use crate::decimal::{le_sum, within_eps, Dec};
use crate::numtok::{parse_dec, spec_parse_dec};
use crate::patterns::{regex_capture_all, regex_captured, regex_find_all, regex_found, regex_is_valid};
use crate::strutil::{line_of, spec_line_of};
use vstd::prelude::*;

verus! {

/// Run-wide assertion settings: the default numeric tolerance.
#[derive(Clone, Copy, Debug)]
pub struct AssertConfig {
    pub epsilon: Dec,
}

/// Which side of a bound a match or value rule checks.
#[derive(Clone, Copy, Debug, PartialEq, Eq, Structural)]
pub enum MatchCond {
    AtMost,
    AtLeast,
}

/// The wording of a bound in a report.
pub fn cond_str(cond: Option<MatchCond>) -> (r: &'static str)
    ensures
        cond matches Some(MatchCond::AtLeast) ==> r@ == "at least "@,
        cond matches Some(MatchCond::AtMost) ==> r@ == "at most "@,
        cond is None ==> r@ == ""@,
{
    match cond {
        Some(MatchCond::AtLeast) => "at least ",
        Some(MatchCond::AtMost) => "at most ",
        None => "",
    }
}

/// A regex occurrence-count rule: exactly one of the three bounds is set.
#[derive(Clone, Debug)]
pub struct Match {
    pub pattern: String,
    pub count: Option<usize>,
    pub count_at_most: Option<usize>,
    pub count_at_least: Option<usize>,
}

/// A numeric-value rule: a token near the given patterns must lie within
/// a tolerance of the wanted value.
#[derive(Clone, Debug)]
pub struct Value {
    pub pattern_before: Option<String>,
    pub pattern_after: Option<String>,
    pub value: Option<Dec>,
    pub value_at_most: Option<Dec>,
    pub value_at_least: Option<Dec>,
    pub epsilon: Option<Dec>,
}

/// An external verifier command with extra environment entries.
#[derive(Clone, Debug)]
pub struct Custom {
    pub cmd: String,
    pub envs: Option<Vec<(String, String)>>,
}

/// A failed match rule: the wanted count, the bound kind, and every
/// occurrence with its line number.
#[derive(Debug)]
pub struct MatchReport {
    pub pattern: String,
    pub count: usize,
    pub cond: Option<MatchCond>,
    pub found: Vec<(usize, Vec<u8>)>,
}

/// Why a value rule failed.
#[derive(Debug)]
pub enum ValueReport {
    Config,
    NegativeEpsilon(Dec),
    AssertFail {
        line: usize,
        pattern: String,
        matched: Vec<u8>,
        want_value: Dec,
        got_value: Dec,
        epsilon: Dec,
        cond: Option<MatchCond>,
    },
    NoMatch { pattern: String },
    ParseFloat { line: usize, pattern: String, matched: Vec<u8> },
}

/// What a spawned process produced: its exit code (`None` when a signal
/// ended it) and its output streams.
#[derive(Clone, Debug)]
pub struct ProcOutput {
    pub code: Option<i32>,
    pub stdout: Vec<u8>,
    pub stderr: Vec<u8>,
}

/// A planned run of a custom verifier: the command, its environment, and
/// the produced and golden paths handed as arguments, inside the staged
/// working directory.
#[derive(Clone, Debug)]
pub struct CustomInvocation {
    pub cmd: String,
    pub envs: Vec<(String, String)>,
    pub produced: String,
    pub golden_path: String,
}

/// A failed custom rule: the invocation and what the verifier printed.
#[derive(Debug)]
pub struct CustomReport {
    pub invocation: CustomInvocation,
    pub output: ProcOutput,
}

/// One assertion failure, scoped to a single test case.
#[derive(Debug)]
pub enum AssertError {
    ProcessExec(String, String),
    Executes(String, String),
    ExitCode { want: i32, got: i32 },
    UnableToRead(String),
    UnableToReadDir(String, String),
    UnableToCreateDir(String, String),
    UnableToDeleteDir(String, String),
    LinkFile(String, String, String),
    Eq { file_name: String, diffs: String },
    Write(String, String),
    Terminated(String),
    CountConfig,
    Match(String, MatchReport),
    Value(String, ValueReport),
    Custom(String, Box<CustomReport>),
    Regex(String),
    PatternError(String),
    GlobError(String),
}

/// The exit code a test expects: the configured one, else zero.
pub open spec fn wanted_exit(want: Option<i32>) -> int {
    match want {
        Some(w) => w as int,
        None => 0,
    }
}

/// Checks the exit code; termination by a signal (no code) always fails.
pub fn check_exit(want: Option<i32>, code: Option<i32>) -> (r: Option<AssertError>)
    ensures
        match code {
            Some(c) => {
                &&& r.is_some() == (c != wanted_exit(want))
                &&& c != wanted_exit(want) ==> (r matches Some(AssertError::ExitCode { want: w, got })
                    && w == wanted_exit(want) && got == c)
            },
            None => r matches Some(AssertError::Terminated(_)),
        },
{
    let w: i32 = match want {
        Some(w0) => w0,
        None => 0,
    };
    match code {
        Some(c) => {
            if c != w {
                Some(AssertError::ExitCode { want: w, got: c })
            } else {
                None
            }
        },
        None => Some(
            AssertError::Terminated(String::from_str("execution terminated by a signal")),
        ),
    }
}

/// The single configured bound of a match rule: the count and its kind,
/// or nothing when zero or several bounds were given.
pub open spec fn match_target(m: Match) -> Option<(usize, Option<MatchCond>)> {
    match (m.count, m.count_at_most, m.count_at_least) {
        (Some(c), None, None) => Some((c, None)),
        (None, Some(c), None) => Some((c, Some(MatchCond::AtMost))),
        (None, None, Some(c)) => Some((c, Some(MatchCond::AtLeast))),
        _ => None,
    }
}

/// Whether the configured occurrence count is violated: with `count` the
/// occurrences must equal it, with `count-at-least` be no fewer, with
/// `count-at-most` be no more.
pub open spec fn count_violated(cnt: int, c: usize, cond: Option<MatchCond>) -> bool {
    match cond {
        None => cnt != c,
        Some(MatchCond::AtMost) => cnt > c,
        Some(MatchCond::AtLeast) => cnt < c,
    }
}

impl Match {
    /// Evaluates the rule against one artifact. Fails exactly when the
    /// occurrence count of the pattern violates the configured bound; a
    /// rule with zero or several bounds is itself a configuration error.
    pub fn check(&self, file_name: &str, text: &[u8]) -> (r: Option<AssertError>)
        requires
            text@.len() < usize::MAX,
        ensures
            match_target(*self) is None ==> r matches Some(AssertError::CountConfig),
            match_target(*self) is Some && !regex_is_valid(self.pattern@) ==> r matches Some(
                AssertError::Regex(_),
            ),
            match_target(*self) matches Some((c, cond)) ==> regex_is_valid(self.pattern@) ==> {
                let cnt = regex_found(self.pattern@, text@).len() as int;
                &&& r.is_some() == count_violated(cnt, c, cond)
                &&& count_violated(cnt, c, cond) ==> (r matches Some(AssertError::Match(f, rep))
                    && f@ == file_name@ && rep.count == c && rep.cond == cond && rep.pattern@
                    == self.pattern@ && rep.found@.len() == cnt && forall|k: int|
                    0 <= k < cnt ==> (#[trigger] rep.found@[k]).0 as int == spec_line_of(
                        text@,
                        regex_found(self.pattern@, text@)[k].0 as int,
                    ) && rep.found@[k].1@ == regex_found(self.pattern@, text@)[k].1)
            },
    {
        let (c, cond): (usize, Option<MatchCond>) = match (
            self.count,
            self.count_at_most,
            self.count_at_least,
        ) {
            (Some(c), None, None) => (c, None),
            (None, Some(c), None) => (c, Some(MatchCond::AtMost)),
            (None, None, Some(c)) => (c, Some(MatchCond::AtLeast)),
            _ => {
                return Some(AssertError::CountConfig);
            },
        };
        let found_raw = match regex_find_all(self.pattern.as_str(), text) {
            Ok(v) => v,
            Err(msg) => {
                return Some(AssertError::Regex(msg));
            },
        };
        let cnt = found_raw.len();
        let violated: bool = match cond {
            None => cnt != c,
            Some(MatchCond::AtMost) => cnt > c,
            Some(MatchCond::AtLeast) => cnt < c,
        };
        if !violated {
            return None;
        }
        // annotate each occurrence with its line number
        let mut found: Vec<(usize, Vec<u8>)> = Vec::new();
        let mut k: usize = 0;
        while k < cnt
            invariant
                k <= cnt == found_raw@.len(),
                text@.len() < usize::MAX,
                found@.len() == k,
                forall|j: int|
                    0 <= j < found_raw@.len() ==> (#[trigger] found_raw@[j]).0 + found_raw@[j].1@.len()
                        <= text@.len(),
                forall|j: int|
                    0 <= j < k ==> (#[trigger] found@[j]).0 as int == spec_line_of(
                        text@,
                        found_raw@[j].0 as int,
                    ) && found@[j].1@ == found_raw@[j].1@,
            decreases cnt - k,
        {
            let (start, bytes) = (found_raw[k].0, found_raw[k].1.clone());
            let line = line_of(text, start);
            found.push((line, bytes));
            k += 1;
        }
        Some(
            AssertError::Match(
                String::from_str(file_name),
                MatchReport { pattern: self.pattern.clone(), count: c, cond, found },
            ),
        )
    }
}

/// The single configured target of a value rule, or nothing when zero or
/// several of `value`, `value-at-least`, `value-at-most` were given.
pub open spec fn value_target(v: Value) -> Option<(Dec, Option<MatchCond>)> {
    match (v.value, v.value_at_least, v.value_at_most) {
        (None, None, Some(x)) => Some((x, Some(MatchCond::AtMost))),
        (None, Some(x), None) => Some((x, Some(MatchCond::AtLeast))),
        (Some(x), None, None) => Some((x, None)),
        _ => None,
    }
}

/// A captured value passes when it lies within `want - eps .. want + eps`
/// for a two-sided check, or on the right side of the bound, eased by
/// `eps`, for a one-sided one.
pub open spec fn value_pass(got: Dec, want: Dec, eps: Dec, cond: Option<MatchCond>) -> bool {
    match cond {
        Some(MatchCond::AtLeast) => le_sum(want, got, eps),
        Some(MatchCond::AtMost) => le_sum(got, want, eps),
        None => within_eps(got, want, eps),
    }
}

/// A capture fails when its token does not parse, or its value does not
/// pass.
pub open spec fn cap_fails(g: Seq<u8>, want: Dec, eps: Dec, cond: Option<MatchCond>) -> bool {
    match spec_parse_dec(g) {
        None => true,
        Some(d) => !value_pass(d, want, eps, cond),
    }
}

/// How many captures fail.
pub open spec fn count_failing(
    caps: Seq<(usize, Seq<u8>, Seq<u8>)>,
    want: Dec,
    eps: Dec,
    cond: Option<MatchCond>,
) -> int
    decreases caps.len(),
{
    if caps.len() == 0 {
        0
    } else {
        count_failing(caps.drop_last(), want, eps, cond) + if cap_fails(
            caps.last().2,
            want,
            eps,
            cond,
        ) {
            1int
        } else {
            0int
        }
    }
}

/// The numeric-token pattern, as one capture group.
pub fn num_token_pattern() -> (r: &'static str)
    ensures
        r@ == "([-+]?\\d*\\.?\\d+(?:[eE][-+]?\\d+)?)"@,
{
    "([-+]?\\d*\\.?\\d+(?:[eE][-+]?\\d+)?)"
}

/// The full pattern a value rule searches with, when at least one of the
/// surrounding patterns is given.
pub open spec fn value_pattern(v: Value) -> Option<Seq<char>> {
    let num = "([-+]?\\d*\\.?\\d+(?:[eE][-+]?\\d+)?)"@;
    match (v.pattern_before, v.pattern_after) {
        (None, None) => None,
        (None, Some(a)) => Some(num + "\\s*"@ + a@),
        (Some(b), None) => Some(b@ + "\\s*"@ + num),
        (Some(b), Some(a)) => Some(b@ + "\\s*"@ + num + "\\s*"@ + a@),
    }
}

/// Judges one capture: an unparsable token is reported as such, and a
/// parsed value is compared against the bound. A failure's report carries
/// the full matched text, not just the numeric token.
fn judge_capture(
    start: usize,
    overall: &Vec<u8>,
    group: &Vec<u8>,
    text: &[u8],
    file_name: &str,
    pattern: &String,
    want: Dec,
    eps: Dec,
    cond: Option<MatchCond>,
) -> (r: Option<AssertError>)
    requires
        text@.len() < usize::MAX,
        start <= text@.len(),
        want.wf(),
        eps.wf(),
    ensures
        r.is_some() == cap_fails(group@, want, eps, cond),
        cap_fails(group@, want, eps, cond) ==> (r matches Some(AssertError::Value(f, rep))
            && f@ == file_name@ && match spec_parse_dec(group@) {
            None => rep matches ValueReport::ParseFloat { line, pattern: p, matched } && line
                == spec_line_of(text@, start as int) && p@ == pattern@ && matched@ == overall@,
            Some(d) => rep matches ValueReport::AssertFail {
                line,
                pattern: p,
                matched,
                want_value,
                got_value,
                epsilon,
                cond: c2,
            } && line == spec_line_of(text@, start as int) && p@ == pattern@ && matched@ == overall@
                && want_value == want && got_value == d && epsilon == eps && c2 == cond,
        }),
{
    let line = line_of(text, start);
    match parse_dec(group.as_slice()) {
        None => Some(
            AssertError::Value(
                String::from_str(file_name),
                ValueReport::ParseFloat { line, pattern: pattern.clone(), matched: overall.clone() },
            ),
        ),
        Some(got) => {
            let pass: bool = match cond {
                Some(MatchCond::AtLeast) => crate::decimal::dec_le_sum(want, got, eps),
                Some(MatchCond::AtMost) => crate::decimal::dec_le_sum(got, want, eps),
                None => crate::decimal::dec_within(got, want, eps),
            };
            if pass {
                None
            } else {
                Some(
                    AssertError::Value(
                        String::from_str(file_name),
                        ValueReport::AssertFail {
                            line,
                            pattern: pattern.clone(),
                            matched: overall.clone(),
                            want_value: want,
                            got_value: got,
                            epsilon: eps,
                            cond,
                        },
                    ),
                )
            }
        },
    }
}

impl Value {
    /// Every decimal field of the rule is representable.
    pub open spec fn wf(self) -> bool {
        &&& (self.value matches Some(d) ==> d.wf())
        &&& (self.value_at_most matches Some(d) ==> d.wf())
        &&& (self.value_at_least matches Some(d) ==> d.wf())
        &&& (self.epsilon matches Some(d) ==> d.wf())
    }

    /// The tolerance this rule uses: its own, else the run's.
    pub open spec fn spec_eps(self, cfg: AssertConfig) -> Dec {
        match self.epsilon {
            Some(e) => e,
            None => cfg.epsilon,
        }
    }

    /// Evaluates the rule against one artifact, collecting one failure per
    /// offending capture. Exactly one of `value`, `value-at-least`,
    /// `value-at-most` must be set, at least one surrounding pattern must
    /// be given, and a tolerance with a negative sign is itself an error,
    /// whatever the captured values. A parsed capture passes exactly when
    /// it lies within `want - eps .. want + eps`, or on the bounded side
    /// eased by `eps` for a one-sided rule.
    pub fn check(&self, cfg: &AssertConfig, file_name: &str, text: &[u8]) -> (errs: Vec<
        AssertError,
    >)
        requires
            text@.len() < usize::MAX,
            self.wf(),
            cfg.epsilon.wf(),
        ensures
            value_target(*self) is None ==> errs@.len() == 1 && (errs@[0] matches
                AssertError::Value(f, ValueReport::Config) && f@ == file_name@),
            value_target(*self) is Some && value_pattern(*self) is None ==> errs@.len() == 1
                && errs@[0] matches AssertError::Regex(_),
            value_target(*self) matches Some((want, cond)) ==> value_pattern(*self) matches Some(p)
                ==> {
                &&& !regex_is_valid(p) ==> errs@.len() == 1 && (errs@[0] matches
                    AssertError::Regex(_))
                &&& regex_is_valid(p) ==> {
                    let eps = self.spec_eps(*cfg);
                    let caps = regex_captured(p, text@);
                    &&& eps.neg ==> errs@.len() == 1 && (errs@[0] matches AssertError::Value(
                        f,
                        ValueReport::NegativeEpsilon(e),
                    ) && f@ == file_name@ && e == eps)
                    &&& !eps.neg && caps.len() == 0 ==> errs@.len() == 1 && (errs@[0] matches
                        AssertError::Value(f, ValueReport::NoMatch { pattern: pp }) && f@
                        == file_name@ && pp@ == p)
                    &&& !eps.neg && caps.len() > 0 ==> {
                        &&& errs@.len() == count_failing(caps, want, eps, cond)
                        &&& forall|k: int|
                            0 <= k < errs@.len() ==> exists|j: int|
                                0 <= j < caps.len() && cap_fails(
                                    #[trigger] caps[j].2,
                                    want,
                                    eps,
                                    cond,
                                ) && ((#[trigger] errs@[k]) matches AssertError::Value(f, _) && f@
                                    == file_name@)
                    }
                }
            },
    {
        let (want, cond): (Dec, Option<MatchCond>) = match (
            self.value,
            self.value_at_least,
            self.value_at_most,
        ) {
            (None, None, Some(x)) => (x, Some(MatchCond::AtMost)),
            (None, Some(x), None) => (x, Some(MatchCond::AtLeast)),
            (Some(x), None, None) => (x, None),
            _ => {
                let mut errs: Vec<AssertError> = Vec::new();
                errs.push(
                    AssertError::Value(String::from_str(file_name), ValueReport::Config),
                );
                return errs;
            },
        };
        let mut pattern = String::new();
        match (&self.pattern_before, &self.pattern_after) {
            (None, None) => {
                let mut errs: Vec<AssertError> = Vec::new();
                errs.push(
                    AssertError::Regex(
                        String::from_str("Empty `pattern-before` and `pattern-after`"),
                    ),
                );
                return errs;
            },
            (None, Some(a)) => {
                pattern.append(num_token_pattern());
                pattern.append("\\s*");
                pattern.append(a.as_str());
            },
            (Some(b), None) => {
                pattern.append(b.as_str());
                pattern.append("\\s*");
                pattern.append(num_token_pattern());
            },
            (Some(b), Some(a)) => {
                pattern.append(b.as_str());
                pattern.append("\\s*");
                pattern.append(num_token_pattern());
                pattern.append("\\s*");
                pattern.append(a.as_str());
            },
        }
        assert(value_pattern(*self) == Some(pattern@));
        let caps = match regex_capture_all(pattern.as_str(), text) {
            Ok(v) => v,
            Err(msg) => {
                let mut errs: Vec<AssertError> = Vec::new();
                errs.push(AssertError::Regex(msg));
                return errs;
            },
        };
        let eps: Dec = match self.epsilon {
            Some(e) => e,
            None => cfg.epsilon,
        };
        if eps.neg {
            let mut errs: Vec<AssertError> = Vec::new();
            errs.push(
                AssertError::Value(
                    String::from_str(file_name),
                    ValueReport::NegativeEpsilon(eps),
                ),
            );
            return errs;
        }
        if caps.len() == 0 {
            let mut errs: Vec<AssertError> = Vec::new();
            errs.push(
                AssertError::Value(
                    String::from_str(file_name),
                    ValueReport::NoMatch { pattern },
                ),
            );
            return errs;
        }
        let ghost spec_caps = regex_captured(pattern@, text@);
        let mut errs: Vec<AssertError> = Vec::new();
        let n = caps.len();
        let mut i: usize = 0;
        proof {
            assert(spec_caps.take(0) =~= Seq::<(usize, Seq<u8>, Seq<u8>)>::empty());
        }
        while i < n
            invariant
                i <= n == caps@.len() == spec_caps.len(),
                text@.len() < usize::MAX,
                want.wf(),
                eps.wf(),
                forall|j: int|
                    0 <= j < n ==> (#[trigger] caps@[j]).0 == spec_caps[j].0 && caps@[j].1@
                        == spec_caps[j].1 && caps@[j].2@ == spec_caps[j].2,
                forall|j: int| 0 <= j < n ==> (#[trigger] caps@[j]).0 + caps@[j].1@.len() <= text@.len(),
                errs@.len() == count_failing(spec_caps.take(i as int), want, eps, cond),
                forall|k: int|
                    0 <= k < errs@.len() ==> exists|j: int|
                        0 <= j < spec_caps.len() && cap_fails(
                            #[trigger] spec_caps[j].2,
                            want,
                            eps,
                            cond,
                        ) && ((#[trigger] errs@[k]) matches AssertError::Value(f, _) && f@
                            == file_name@),
            decreases n - i,
        {
            proof {
                assert(spec_caps.take(i + 1).drop_last() =~= spec_caps.take(i as int));
                assert(spec_caps.take(i + 1).last() == spec_caps[i as int]);
            }
            let start = caps[i].0;
            let r = judge_capture(
                start,
                &caps[i].1,
                &caps[i].2,
                text,
                file_name,
                &pattern,
                want,
                eps,
                cond,
            );
            match r {
                Some(e) => {
                    errs.push(e);
                },
                None => {},
            }
            i += 1;
        }
        proof {
            assert(spec_caps.take(n as int) =~= spec_caps);
        }
        errs
    }
}

} // verus!
