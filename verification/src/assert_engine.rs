//! Evaluation of a test's whole assertion block: the expected exit code
//! and, per golden rule and matched artifact, the equality, match, value
//! and custom rules. All failures are collected; nothing short-circuits.

use crate::assert_rules::{
    check_exit, count_failing, count_violated, match_target, value_pattern, value_target,
    AssertConfig, AssertError, Custom, CustomInvocation, CustomReport, Match, ProcOutput, Value,
};
use crate::difftext::render_text_diff;
use crate::patterns::{
    glob_is_valid, glob_match, glob_matched, regex_captured, regex_found, regex_is_valid,
};
use crate::strutil::{bytes_eq, dec_to_string, spec_dec_str};
use vstd::prelude::*;

verus! {

/// One golden rule: an artifact pattern and the checks to run against
/// every artifact it matches.
#[derive(Clone, Debug)]
pub struct Golden {
    pub file: String,
    pub equal: Option<bool>,
    pub match_rules: Option<Vec<Match>>,
    pub value_rules: Option<Vec<Value>>,
    pub custom: Option<Vec<Custom>>,
}

/// A test's assertion block: the expected exit code and the golden rules.
#[derive(Clone, Debug)]
pub struct Assert {
    pub exit_code: Option<i32>,
    pub golden: Option<Vec<Golden>>,
}

/// One artifact matched by a golden rule, with its content and the bytes
/// of its golden counterpart where that could be read.
#[derive(Debug)]
pub struct GoldenInput {
    pub file_name: String,
    pub content: Vec<u8>,
    pub golden: Option<Vec<u8>>,
}

pub open spec fn opt_bytes_view(g: Option<&Vec<u8>>) -> Option<Seq<u8>> {
    match g {
        Some(v) => Some(v@),
        None => None,
    }
}

pub open spec fn gi_golden_view(g: Option<Vec<u8>>) -> Option<Seq<u8>> {
    match g {
        Some(v) => Some(v@),
        None => None,
    }
}

/// An equality assertion fails when the golden file could not be read, or
/// when its bytes differ from the produced ones.
pub open spec fn equal_fails(output: Seq<u8>, golden: Option<Seq<u8>>) -> bool {
    match golden {
        None => true,
        Some(g) => g != output,
    }
}

/// Recording the captured output as the golden file makes the equality
/// assertion pass: the comparison round-trips.
pub proof fn lemma_equal_roundtrip(output: Seq<u8>)
    ensures
        !equal_fails(output, Some(output)),
{
}

/// Compares an artifact against its golden file; a missing golden file is
/// a failure, and differing text yields a line diff.
pub fn check_equal(file_name: &str, output: &[u8], golden: Option<&Vec<u8>>) -> (r: Option<
    AssertError,
>)
    requires
        output@.len() < usize::MAX,
        (golden matches Some(g) ==> g@.len() < usize::MAX),
    ensures
        r.is_some() == equal_fails(output@, opt_bytes_view(golden)),
        golden is None ==> (r matches Some(AssertError::UnableToRead(f)) && f@ == file_name@),
        (match golden {
            Some(g) => g@ != output@,
            None => false,
        }) ==> (r matches Some(AssertError::Eq { file_name: f, diffs: d }) && f@ == file_name@
            && (golden matches Some(g) ==> d@ == crate::difftext::spec_render_diff(
            crate::difftext::diff_changes_of(g@, output@),
        ))),
{
    match golden {
        None => Some(AssertError::UnableToRead(String::from_str(file_name))),
        Some(g) => {
            if bytes_eq(output, g.as_slice()) {
                None
            } else {
                let diffs = render_text_diff(g.as_slice(), output);
                Some(AssertError::Eq { file_name: String::from_str(file_name), diffs })
            }
        },
    }
}

/// How many failures one match rule yields on one artifact.
pub open spec fn match_rule_errs(m: Match, text: Seq<u8>) -> int {
    match match_target(m) {
        None => 1,
        Some((c, cond)) => {
            if !regex_is_valid(m.pattern@) {
                1
            } else if count_violated(regex_found(m.pattern@, text).len() as int, c, cond) {
                1
            } else {
                0
            }
        },
    }
}

pub open spec fn match_errs_n(ms: Seq<Match>, text: Seq<u8>) -> int
    decreases ms.len(),
{
    if ms.len() == 0 {
        0
    } else {
        match_errs_n(ms.drop_last(), text) + match_rule_errs(ms.last(), text)
    }
}

/// How many failures one value rule yields on one artifact.
pub open spec fn value_rule_errs(v: Value, cfg: AssertConfig, text: Seq<u8>) -> int {
    match value_target(v) {
        None => 1,
        Some((want, cond)) => match value_pattern(v) {
            None => 1,
            Some(p) => {
                if !regex_is_valid(p) {
                    1
                } else {
                    let eps = v.spec_eps(cfg);
                    let caps = regex_captured(p, text);
                    if eps.neg {
                        1
                    } else if caps.len() == 0 {
                        1
                    } else {
                        count_failing(caps, want, eps, cond)
                    }
                }
            },
        },
    }
}

pub open spec fn value_errs_n(vs: Seq<Value>, cfg: AssertConfig, text: Seq<u8>) -> int
    decreases vs.len(),
{
    if vs.len() == 0 {
        0
    } else {
        value_errs_n(vs.drop_last(), cfg, text) + value_rule_errs(vs.last(), cfg, text)
    }
}

/// How many failures one golden rule yields on one artifact: the equality
/// check when asked for, then every match rule, then every value rule.
pub open spec fn golden_errs_n(
    g: Golden,
    cfg: AssertConfig,
    output: Seq<u8>,
    golden: Option<Seq<u8>>,
) -> int {
    (if g.equal == Some(true) && equal_fails(output, golden) {
        1int
    } else {
        0int
    }) + (match g.match_rules {
        Some(ms) => match_errs_n(ms@, output),
        None => 0,
    }) + (match g.value_rules {
        Some(vs) => value_errs_n(vs@, cfg, output),
        None => 0,
    })
}

impl Golden {
    /// Every decimal in the rule's value checks is representable.
    pub open spec fn wf(self) -> bool {
        self.value_rules matches Some(vs) ==> forall|i: int|
            0 <= i < vs@.len() ==> (#[trigger] vs@[i]).wf()
    }

    /// Evaluates every configured rule of this golden block against one
    /// artifact, collecting all failures, and plans one custom-verifier
    /// run per custom rule, handing along the run's tolerance and the
    /// rule's own environment entries.
    pub fn check(
        &self,
        cfg: &AssertConfig,
        file_name: &str,
        golden: Option<&Vec<u8>>,
        output: &[u8],
    ) -> (r: (Vec<AssertError>, Vec<CustomInvocation>))
        requires
            self.wf(),
            cfg.epsilon.wf(),
            output@.len() < usize::MAX,
            (golden matches Some(g) ==> g@.len() < usize::MAX),
        ensures
            r.0@.len() == golden_errs_n(*self, *cfg, output@, opt_bytes_view(golden)),
            self.equal == Some(true) && golden is None ==> r.0@.len() >= 1 && (r.0@[0] matches
                AssertError::UnableToRead(f) && f@ == file_name@),
            self.equal == Some(true) && (match golden {
                Some(gg) => gg@ != output@,
                None => false,
            }) ==> r.0@.len() >= 1 && (r.0@[0] matches AssertError::Eq { file_name: f, diffs: d }
                && f@ == file_name@ && (golden matches Some(gg) ==> d@
                == crate::difftext::spec_render_diff(
                crate::difftext::diff_changes_of(gg@, output@),
            ))),
            self.custom is None ==> r.1@.len() == 0,
            self.custom matches Some(cs) ==> {
                &&& r.1@.len() == cs@.len()
                &&& forall|i: int|
                    0 <= i < cs@.len() ==> {
                        let inv = #[trigger] r.1@[i];
                        &&& inv.cmd@ == cs@[i].cmd@
                        &&& inv.produced@ == file_name@
                        &&& inv.golden_path@ == "__golden__/"@ + file_name@
                        &&& inv.envs@.len() == 1 + (match cs@[i].envs {
                            Some(es) => es@.len() as int,
                            None => 0,
                        })
                        &&& inv.envs@[0].0@ == "epsilon"@
                        &&& inv.envs@[0].1@ == spec_dec_str(cfg.epsilon)
                        &&& (cs@[i].envs matches Some(es) ==> forall|j: int|
                            0 <= j < es@.len() ==> (#[trigger] inv.envs@[j + 1]).0@ == es@[j].0@
                                && inv.envs@[j + 1].1@ == es@[j].1@)
                    }
            },
    {
        let mut errs: Vec<AssertError> = Vec::new();
        // equality
        match self.equal {
            Some(eq) if eq => {
                match check_equal(file_name, output, golden) {
                    Some(e) => errs.push(e),
                    None => {},
                }
            },
            _ => {},
        }
        let ghost eq_n = errs@.len() as int;
        let ghost head = errs@;
        // match rules
        match &self.match_rules {
            Some(ms) => {
                let n = ms.len();
                let mut i: usize = 0;
                proof {
                    assert(ms@.take(0) =~= Seq::<Match>::empty());
                }
                while i < n
                    invariant
                        i <= n == ms@.len(),
                        output@.len() < usize::MAX,
                        errs@.len() == eq_n + match_errs_n(ms@.take(i as int), output@),
                        head.len() <= errs@.len(),
                        forall|k: int| 0 <= k < head.len() ==> (#[trigger] errs@[k]) == head[k],
                    decreases n - i,
                {
                    proof {
                        assert(ms@.take(i + 1).drop_last() =~= ms@.take(i as int));
                        assert(ms@.take(i + 1).last() == ms@[i as int]);
                    }
                    match ms[i].check(file_name, output) {
                        Some(e) => errs.push(e),
                        None => {},
                    }
                    i += 1;
                }
                proof {
                    assert(ms@.take(n as int) =~= ms@);
                }
            },
            None => {},
        }
        let ghost me_n = errs@.len() as int;
        // value rules
        match &self.value_rules {
            Some(vs) => {
                let n = vs.len();
                let mut i: usize = 0;
                proof {
                    assert(vs@.take(0) =~= Seq::<Value>::empty());
                }
                while i < n
                    invariant
                        i <= n == vs@.len(),
                        output@.len() < usize::MAX,
                        cfg.epsilon.wf(),
                        forall|j: int| 0 <= j < n ==> (#[trigger] vs@[j]).wf(),
                        errs@.len() == me_n + value_errs_n(vs@.take(i as int), *cfg, output@),
                        head.len() <= errs@.len(),
                        forall|k: int| 0 <= k < head.len() ==> (#[trigger] errs@[k]) == head[k],
                    decreases n - i,
                {
                    proof {
                        assert(vs@.take(i + 1).drop_last() =~= vs@.take(i as int));
                        assert(vs@.take(i + 1).last() == vs@[i as int]);
                    }
                    let mut sub = vs[i].check(cfg, file_name, output);
                    proof {
                        assert(sub@.len() == value_rule_errs(vs@[i as int], *cfg, output@));
                    }
                    errs.append(&mut sub);
                    i += 1;
                }
                proof {
                    assert(vs@.take(n as int) =~= vs@);
                }
            },
            None => {},
        }
        // custom rules become planned verifier runs
        let mut customs: Vec<CustomInvocation> = Vec::new();
        match &self.custom {
            Some(cs) => {
                let n = cs.len();
                let mut i: usize = 0;
                while i < n
                    invariant
                        i <= n == cs@.len(),
                        cfg.epsilon.wf(),
                        customs@.len() == i,
                        forall|k: int|
                            0 <= k < i ==> {
                                let inv = #[trigger] customs@[k];
                                &&& inv.cmd@ == cs@[k].cmd@
                                &&& inv.produced@ == file_name@
                                &&& inv.golden_path@ == "__golden__/"@ + file_name@
                                &&& inv.envs@.len() == 1 + (match cs@[k].envs {
                                    Some(es) => es@.len() as int,
                                    None => 0,
                                })
                                &&& inv.envs@[0].0@ == "epsilon"@
                                &&& inv.envs@[0].1@ == spec_dec_str(cfg.epsilon)
                                &&& (cs@[k].envs matches Some(es) ==> forall|j: int|
                                    0 <= j < es@.len() ==> (#[trigger] inv.envs@[j + 1]).0@
                                        == es@[j].0@ && inv.envs@[j + 1].1@ == es@[j].1@)
                            },
                    decreases n - i,
                {
                    let mut envs: Vec<(String, String)> = Vec::new();
                    envs.push((String::from_str("epsilon"), dec_to_string(&cfg.epsilon)));
                    match &cs[i].envs {
                        Some(es) => {
                            let m = es.len();
                            let mut j: usize = 0;
                            while j < m
                                invariant
                                    j <= m == es@.len(),
                                    envs@.len() == 1 + j,
                                    envs@[0].0@ == "epsilon"@,
                                    envs@[0].1@ == spec_dec_str(cfg.epsilon),
                                    forall|q: int|
                                        0 <= q < j ==> (#[trigger] envs@[q + 1]).0@ == es@[q].0@
                                            && envs@[q + 1].1@ == es@[q].1@,
                                decreases m - j,
                            {
                                envs.push((es[j].0.clone(), es[j].1.clone()));
                                j += 1;
                            }
                        },
                        None => {},
                    }
                    let mut gp = String::from_str("__golden__/");
                    gp.append(file_name);
                    customs.push(
                        CustomInvocation {
                            cmd: cs[i].cmd.clone(),
                            envs,
                            produced: String::from_str(file_name),
                            golden_path: gp,
                        },
                    );
                    i += 1;
                }
            },
            None => {},
        }
        (errs, customs)
    }
}

/// Judges a finished custom-verifier run: any outcome but a clean zero
/// exit is a failure carrying the verifier's own output.
pub fn custom_judge(inv: CustomInvocation, out: ProcOutput, file_name: &str) -> (r: Option<
    AssertError,
>)
    ensures
        r.is_some() == (out.code != Some(0i32)),
        out.code != Some(0i32) ==> (r matches Some(AssertError::Custom(f, rep)) && f@ == file_name@
            && rep.invocation == inv && rep.output == out),
{
    let failed = match out.code {
        Some(c) => c != 0,
        None => true,
    };
    if failed {
        Some(
            AssertError::Custom(
                String::from_str(file_name),
                Box::new(CustomReport { invocation: inv, output: out }),
            ),
        )
    } else {
        None
    }
}

/// The names among `files` that the glob pattern matches, in order.
pub open spec fn matching_files(files: Seq<String>, pat: Seq<char>) -> Seq<Seq<char>> {
    files.map_values(|f: String| f@).filter(|n: Seq<char>| glob_matched(pat, n))
}

/// How an artifact reference resolves: one of the two captured streams,
/// or a file in the working directory.
#[derive(Clone, Debug)]
pub enum ArtifactRef {
    Stdout,
    Stderr,
    File(String),
}

pub open spec fn aref_name(a: ArtifactRef) -> Seq<char> {
    match a {
        ArtifactRef::File(s) => s@,
        ArtifactRef::Stdout => Seq::<char>::empty(),
        ArtifactRef::Stderr => Seq::<char>::empty(),
    }
}

/// The pattern is one of the literal names that stand for the captured
/// standard output: the test's stem or its full file name, with the
/// stream suffix.
pub open spec fn is_stdout_name(pattern: Seq<char>, name: Seq<char>, ext: Seq<char>) -> bool {
    pattern == name + ".stdout"@ || pattern == name + seq!['.'] + ext + ".stdout"@
}

/// As above, for the captured standard error.
pub open spec fn is_stderr_name(pattern: Seq<char>, name: Seq<char>, ext: Seq<char>) -> bool {
    pattern == name + ".stderr"@ || pattern == name + seq!['.'] + ext + ".stderr"@
}

proof fn lemma_suffix_last(x: Seq<char>, y: Seq<char>)
    requires
        y.len() > 0,
    ensures
        (x + y).last() == y.last(),
{
    assert((x + y).last() == (x + y)[x.len() + y.len() - 1]);
}

/// The two stream-name families never overlap: one ends in `t`, the
/// other in `r`.
proof fn lemma_streams_disjoint(pattern: Seq<char>, name: Seq<char>, ext: Seq<char>)
    ensures
        !(is_stdout_name(pattern, name, ext) && is_stderr_name(pattern, name, ext)),
{
    reveal_strlit(".stdout");
    reveal_strlit(".stderr");
    assert(".stdout"@.len() == 7 && ".stdout"@[6] == 't');
    assert(".stderr"@.len() == 7 && ".stderr"@[6] == 'r');
    if is_stdout_name(pattern, name, ext) && is_stderr_name(pattern, name, ext) {
        lemma_suffix_last(name, ".stdout"@);
        lemma_suffix_last(name + seq!['.'] + ext, ".stdout"@);
        lemma_suffix_last(name, ".stderr"@);
        lemma_suffix_last(name + seq!['.'] + ext, ".stderr"@);
        assert(pattern.last() == 't');
        assert(pattern.last() == 'r');
        assert(false);
    }
}

/// Resolves a golden rule's `file` against the staged working directory:
/// the literal stream names — the test's stem or full file name followed
/// by `.stdout` or `.stderr` — stand for the captured streams; any other
/// pattern selects the matching files by glob, and a pattern the glob
/// crate rejects is an error whatever the directory holds.
pub fn select_artifacts(pattern: &String, name: &String, ext: &String, files: &Vec<String>) -> (r:
    Result<Vec<ArtifactRef>, AssertError>)
    ensures
        is_stdout_name(pattern@, name@, ext@) ==> (r matches Ok(v) && v@.len() == 1 && v@[0]
            is Stdout),
        is_stderr_name(pattern@, name@, ext@) ==> (r matches Ok(v) && v@.len() == 1 && v@[0]
            is Stderr),
        !is_stdout_name(pattern@, name@, ext@) && !is_stderr_name(pattern@, name@, ext@) ==> {
            &&& r is Err == !glob_is_valid(pattern@)
            &&& (r matches Err(e) ==> e matches AssertError::PatternError(_))
            &&& (r matches Ok(v) ==> {
                &&& v@.map_values(|a: ArtifactRef| aref_name(a)) == matching_files(
                    files@,
                    pattern@,
                )
                &&& forall|k: int| 0 <= k < v@.len() ==> (#[trigger] v@[k]) is File
            })
        },
{
    proof {
        lemma_streams_disjoint(pattern@, name@, ext@);
    }
    let mut full = name.clone();
    full.append(".");
    full.append(ext.as_str());
    proof {
        reveal_strlit(".");
        assert(full@ =~= name@ + seq!['.'] + ext@);
    }
    let mut so1 = name.clone();
    so1.append(".stdout");
    let mut so2 = full.clone();
    so2.append(".stdout");
    if *pattern == so1 || *pattern == so2 {
        let mut v: Vec<ArtifactRef> = Vec::new();
        v.push(ArtifactRef::Stdout);
        return Ok(v);
    }
    let mut se1 = name.clone();
    se1.append(".stderr");
    let mut se2 = full.clone();
    se2.append(".stderr");
    if *pattern == se1 || *pattern == se2 {
        let mut v: Vec<ArtifactRef> = Vec::new();
        v.push(ArtifactRef::Stderr);
        return Ok(v);
    }
    // compile the pattern once, so that an invalid one fails whatever the
    // directory holds
    match glob_match(pattern.as_str(), "") {
        Ok(_) => {},
        Err(msg) => {
            return Err(AssertError::PatternError(msg));
        },
    }
    let n = files.len();
    let mut v: Vec<ArtifactRef> = Vec::new();
    let mut i: usize = 0;
    proof {
        reveal(Seq::filter);
        assert(files@.take(0).map_values(|f: String| f@) =~= Seq::<Seq<char>>::empty());
        assert(matching_files(files@.take(0), pattern@) =~= Seq::<Seq<char>>::empty());
    }
    while i < n
        invariant
            i <= n == files@.len(),
            v@.map_values(|a: ArtifactRef| aref_name(a)) == matching_files(
                files@.take(i as int),
                pattern@,
            ),
            forall|k: int| 0 <= k < v@.len() ==> (#[trigger] v@[k]) is File,
            glob_is_valid(pattern@),
        decreases n - i,
    {
        let matched = match glob_match(pattern.as_str(), files[i].as_str()) {
            Ok(b) => b,
            Err(msg) => {
                return Err(AssertError::PatternError(msg));
            },
        };
        proof {
            reveal(Seq::filter);
            let mapped = files@.take(i as int).map_values(|f: String| f@);
            let mapped1 = files@.take(i + 1).map_values(|f: String| f@);
            assert(mapped1 =~= mapped.push(files@[i as int]@));
            assert(mapped1.drop_last() =~= mapped);
        }
        if matched {
            v.push(ArtifactRef::File(files[i].clone()));
            proof {
                assert(v@.map_values(|a: ArtifactRef| aref_name(a)) =~= matching_files(
                    files@.take(i + 1),
                    pattern@,
                ));
            }
        } else {
            proof {
                assert(v@.map_values(|a: ArtifactRef| aref_name(a)) =~= matching_files(
                    files@.take(i + 1),
                    pattern@,
                ));
            }
        }
        i += 1;
    }
    proof {
        assert(files@.take(n as int) =~= files@);
    }
    Ok(v)
}

/// How many failures one golden rule yields across its matched artifacts.
pub open spec fn golden_inputs_sum(g: Golden, cfg: AssertConfig, inputs: Seq<GoldenInput>) -> int
    decreases inputs.len(),
{
    if inputs.len() == 0 {
        0
    } else {
        golden_inputs_sum(g, cfg, inputs.drop_last()) + golden_errs_n(
            g,
            cfg,
            inputs.last().content@,
            gi_golden_view(inputs.last().golden),
        )
    }
}

/// A rule that matched no artifact is itself one failure.
pub open spec fn golden_inputs_errs_n(g: Golden, cfg: AssertConfig, inputs: Seq<GoldenInput>) -> int {
    if inputs.len() == 0 {
        1
    } else {
        golden_inputs_sum(g, cfg, inputs)
    }
}

/// How many failures one rule yields: a pattern the glob crate rejected
/// is one failure; else the matched artifacts decide.
pub open spec fn rule_errs_n(
    g: Golden,
    cfg: AssertConfig,
    inp: Result<Vec<GoldenInput>, String>,
) -> int {
    match inp {
        Err(_) => 1,
        Ok(v) => golden_inputs_errs_n(g, cfg, v@),
    }
}

pub open spec fn rules_errs_n(
    gs: Seq<Golden>,
    cfg: AssertConfig,
    inps: Seq<Result<Vec<GoldenInput>, String>>,
) -> int
    decreases gs.len(),
{
    if gs.len() == 0 {
        0
    } else {
        rules_errs_n(gs.drop_last(), cfg, inps.drop_last()) + rule_errs_n(
            gs.last(),
            cfg,
            inps.last(),
        )
    }
}

/// How many failures the exit-code check yields.
pub open spec fn exit_errs_n(want: Option<i32>, code: Option<i32>) -> int {
    match code {
        Some(c) => {
            if c != crate::assert_rules::wanted_exit(want) {
                1int
            } else {
                0int
            }
        },
        None => 1,
    }
}

/// The rule's pattern matched nothing.
pub open spec fn is_empty_ok(inp: Result<Vec<GoldenInput>, String>) -> bool {
    inp matches Ok(v) && v@.len() == 0
}

/// The rejection message of a failed pattern.
pub open spec fn err_text(inp: Result<Vec<GoldenInput>, String>) -> Seq<char> {
    match inp {
        Err(m) => m@,
        Ok(_) => Seq::<char>::empty(),
    }
}

/// The machine-size bounds on one rule's matched artifacts.
pub open spec fn input_bounds(inp: Result<Vec<GoldenInput>, String>) -> bool {
    inp matches Ok(v) ==> forall|j: int|
        0 <= j < v@.len() ==> (#[trigger] v@[j]).content@.len() < usize::MAX && (
        v@[j].golden matches Some(g) ==> g@.len() < usize::MAX)
}

impl Assert {
    pub open spec fn wf(self) -> bool {
        self.golden matches Some(gs) ==> forall|i: int|
            0 <= i < gs@.len() ==> (#[trigger] gs@[i]).wf()
    }

    /// Evaluates the whole assertion block: the exit code first — a
    /// mismatch or a signal termination stands at the head of the list —
    /// then per golden rule each matched artifact. A rule whose pattern
    /// the glob crate rejected is one failure carrying the rejection; a
    /// rule whose pattern matched nothing is one failure naming the
    /// rule's pattern. All failures are collected, none stops the rest;
    /// the planned custom-verifier runs are handed back beside them.
    #[verifier::rlimit(100)]
    pub fn check(
        &self,
        cfg: &AssertConfig,
        code: Option<i32>,
        rule_inputs: &Vec<Result<Vec<GoldenInput>, String>>,
    ) -> (r: (Vec<AssertError>, Vec<CustomInvocation>))
        requires
            self.wf(),
            cfg.epsilon.wf(),
            (self.golden matches Some(gs) ==> gs@.len() == rule_inputs@.len()),
            self.golden is None ==> rule_inputs@.len() == 0,
            forall|i: int|
                0 <= i < rule_inputs@.len() ==> input_bounds(#[trigger] rule_inputs@[i]),
        ensures
            self.golden matches Some(gs) ==> r.0@.len() == exit_errs_n(self.exit_code, code)
                + rules_errs_n(gs@, *cfg, rule_inputs@),
            self.golden is None ==> r.0@.len() == exit_errs_n(self.exit_code, code),
            exit_errs_n(self.exit_code, code) == 1 ==> r.0@.len() >= 1 && (match code {
                Some(c) => (r.0@[0] matches AssertError::ExitCode { want: w, got } && w
                    == crate::assert_rules::wanted_exit(self.exit_code) && got == c),
                None => r.0@[0] is Terminated,
            }),
            self.golden matches Some(gs) ==> forall|i: int|
                0 <= i < gs@.len() && is_empty_ok(#[trigger] rule_inputs@[i]) ==> exists|k: int|
                    0 <= k < r.0@.len() && ((#[trigger] r.0@[k]) matches AssertError::UnableToRead(
                        f,
                    ) && f@ == gs@[i].file@),
            self.golden matches Some(gs) ==> forall|i: int|
                0 <= i < gs@.len() && (#[trigger] rule_inputs@[i]) is Err ==> exists|k: int|
                    0 <= k < r.0@.len() && ((#[trigger] r.0@[k]) matches AssertError::PatternError(
                        mm,
                    ) && mm@ == err_text(rule_inputs@[i])),
    {
        let mut errs: Vec<AssertError> = Vec::new();
        let mut customs: Vec<CustomInvocation> = Vec::new();
        match check_exit(self.exit_code, code) {
            Some(e) => errs.push(e),
            None => {},
        }
        let ghost exit_n = errs@.len() as int;
        let ghost exit_errs = errs@;
        match &self.golden {
            Some(gs) => {
                let n = gs.len();
                let mut i: usize = 0;
                proof {
                    assert(gs@.take(0) =~= Seq::<Golden>::empty());
                    assert(rule_inputs@.take(0) =~= Seq::<
                        Result<Vec<GoldenInput>, String>,
                    >::empty());
                }
                while i < n
                    invariant
                        i <= n == gs@.len() == rule_inputs@.len(),
                        cfg.epsilon.wf(),
                        forall|k: int| 0 <= k < n ==> (#[trigger] gs@[k]).wf(),
                        forall|k: int|
                            0 <= k < rule_inputs@.len() ==> input_bounds(
                                #[trigger] rule_inputs@[k],
                            ),
                        errs@.len() == exit_n + rules_errs_n(
                            gs@.take(i as int),
                            *cfg,
                            rule_inputs@.take(i as int),
                        ),
                        exit_n <= errs@.len(),
                        forall|k: int| 0 <= k < exit_n ==> (#[trigger] errs@[k]) == exit_errs[k],
                        forall|q: int|
                            0 <= q < i && is_empty_ok(#[trigger] rule_inputs@[q])
                                ==> exists|k: int|
                                0 <= k < errs@.len() && ((#[trigger] errs@[k]) matches
                                    AssertError::UnableToRead(f) && f@ == gs@[q].file@),
                        forall|q: int|
                            0 <= q < i && (#[trigger] rule_inputs@[q]) is Err ==> exists|k: int|
                                0 <= k < errs@.len() && ((#[trigger] errs@[k]) matches
                                    AssertError::PatternError(mm) && mm@ == err_text(
                                    rule_inputs@[q],
                                )),
                    decreases n - i,
                {
                    proof {
                        assert(gs@.take(i + 1).drop_last() =~= gs@.take(i as int));
                        assert(rule_inputs@.take(i + 1).drop_last() =~= rule_inputs@.take(i as int));
                        assert(gs@.take(i + 1).last() == gs@[i as int]);
                        assert(rule_inputs@.take(i + 1).last() == rule_inputs@[i as int]);
                    }
                    let ghost errs_before = errs@;
                    match &rule_inputs[i] {
                        Err(msg) => {
                            errs.push(AssertError::PatternError(msg.clone()));
                        },
                        Ok(inputs) => {
                            let m = inputs.len();
                            if m == 0 {
                                errs.push(AssertError::UnableToRead(gs[i].file.clone()));
                            } else {
                                let ghost before = errs@.len() as int;
                                let mut j: usize = 0;
                                proof {
                                    assert(inputs@.take(0) =~= Seq::<GoldenInput>::empty());
                                    assert(input_bounds(rule_inputs@[i as int]));
                                    assert forall|q: int| 0 <= q < inputs@.len() implies (
                                    #[trigger] inputs@[q]).content@.len() < usize::MAX && (
                                    inputs@[q].golden matches Some(g) ==> g@.len() < usize::MAX) by {
                                    }
                                }
                                while j < m
                                    invariant
                                        j <= m == inputs@.len(),
                                        cfg.epsilon.wf(),
                                        0 <= i < gs@.len() == rule_inputs@.len(),
                                        gs@[i as int].wf(),
                                        rule_inputs@[i as int] matches Ok(v) && inputs == &v,
                                        forall|q: int|
                                            0 <= q < m ==> (#[trigger] inputs@[q]).content@.len()
                                                < usize::MAX && (inputs@[q].golden matches Some(g)
                                                ==> g@.len() < usize::MAX),
                                        before <= errs@.len(),
                                        errs@.len() == before + golden_inputs_sum(
                                            gs@[i as int],
                                            *cfg,
                                            inputs@.take(j as int),
                                        ),
                                        forall|k: int|
                                            0 <= k < before ==> (#[trigger] errs@[k])
                                                == errs_before[k],
                                    decreases m - j,
                                {
                                    proof {
                                        assert(inputs@.take(j + 1).drop_last() =~= inputs@.take(
                                            j as int,
                                        ));
                                        assert(inputs@.take(j + 1).last() == inputs@[j as int]);
                                    }
                                    let ghost prev = errs@;
                                    let gi = &inputs[j];
                                    let golden_ref: Option<&Vec<u8>> = match &gi.golden {
                                        Some(g) => Some(g),
                                        None => None,
                                    };
                                    let (mut sub, mut subc) = gs[i].check(
                                        cfg,
                                        gi.file_name.as_str(),
                                        golden_ref,
                                        gi.content.as_slice(),
                                    );
                                    errs.append(&mut sub);
                                    customs.append(&mut subc);
                                    proof {
                                        assert(forall|k: int|
                                            0 <= k < prev.len() ==> (#[trigger] errs@[k])
                                                == prev[k]);
                                    }
                                    j += 1;
                                }
                                proof {
                                    assert(inputs@.take(m as int) =~= inputs@);
                                }
                            }
                        },
                    }
                    proof {
                        assert(forall|k: int|
                            0 <= k < errs_before.len() ==> (#[trigger] errs@[k])
                                == errs_before[k]);
                        assert forall|q: int|
                            0 <= q < i + 1 && is_empty_ok(#[trigger] rule_inputs@[q])
                                implies exists|k: int|
                            0 <= k < errs@.len() && ((#[trigger] errs@[k]) matches
                                AssertError::UnableToRead(f) && f@ == gs@[q].file@) by {
                            if q < i {
                                let k0 = choose|k: int|
                                    0 <= k < errs_before.len() && ((#[trigger] errs_before[k]) matches
                                        AssertError::UnableToRead(f) && f@ == gs@[q].file@);
                                assert(errs@[k0] == errs_before[k0]);
                            } else {
                                assert((errs@[errs_before.len() as int] matches
                                    AssertError::UnableToRead(f) && f@ == gs@[i as int].file@));
                            }
                        }
                        assert forall|q: int|
                            0 <= q < i + 1 && (#[trigger] rule_inputs@[q]) is Err
                                implies exists|k: int|
                            0 <= k < errs@.len() && ((#[trigger] errs@[k]) matches
                                AssertError::PatternError(mm) && mm@ == err_text(rule_inputs@[q]))
                            by {
                            if q < i {
                                let k0 = choose|k: int|
                                    0 <= k < errs_before.len() && ((#[trigger] errs_before[k]) matches
                                        AssertError::PatternError(mm) && mm@ == err_text(
                                        rule_inputs@[q],
                                    ));
                                assert(errs@[k0] == errs_before[k0]);
                            } else {
                                assert((errs@[errs_before.len() as int] matches
                                    AssertError::PatternError(mm) && mm@ == err_text(
                                    rule_inputs@[i as int],
                                )));
                            }
                        }
                    }
                    i += 1;
                }
                proof {
                    assert(gs@.take(n as int) =~= gs@);
                    assert(rule_inputs@.take(n as int) =~= rule_inputs@);
                }
            },
            None => {},
        }
        (errs, customs)
    }
}

} // verus!
