//! The hierarchical configuration: partial fragments read at each
//! directory level, the fully merged per-test configuration, the merge
//! itself (override, or append under `extend`), validation, and template
//! evaluation against the test file's name.

use crate::assert_engine::{Assert, Golden};
use crate::decimal::Dec;
use crate::regression::BuildError;
use crate::source::Source;
use crate::strutil::{after_last, before_last, contains_char, path_basename, split_extension};
use crate::template::{expand, spec_expand};
use vstd::prelude::*;

verus! {

/// A pre- or post-processing hook: a command, its arguments, and an
/// optional working directory.
#[derive(Clone, Debug)]
pub struct PrePostProcess {
    pub cmd: String,
    pub args: Option<Vec<String>>,
    pub workdir: Option<String>,
}

/// The append-only part of a fragment.
#[derive(Debug)]
pub struct Extend {
    pub args: Option<Vec<String>>,
    pub envs: Option<Vec<(String, String)>>,
    pub extern_files: Option<Vec<String>>,
}

/// One parsed configuration fragment: every field optional; a set field
/// overrides the inherited value, fields under `extend` append instead.
#[derive(Debug)]
pub struct Config {
    pub ignore: Option<bool>,
    pub print_errs: Option<bool>,
    pub permit: Option<u32>,
    pub cmd: Option<String>,
    pub preprocess: Option<Vec<PrePostProcess>>,
    pub postprocess: Option<Vec<PrePostProcess>>,
    pub extensions: Option<Vec<String>>,
    pub epsilon: Option<Dec>,
    pub args: Option<Vec<String>>,
    pub envs: Option<Vec<(String, String)>>,
    pub extern_files: Option<Vec<String>>,
    pub extend: Option<Extend>,
    pub assert_spec: Option<Assert>,
}

/// The fully merged configuration of one test case.
#[derive(Clone, Debug)]
pub struct FullConfig {
    pub name: String,
    pub extension: String,
    pub filtered: bool,
    pub ignore: Source<bool>,
    pub preprocess: Source<Vec<PrePostProcess>>,
    pub postprocess: Source<Vec<PrePostProcess>>,
    pub print_errs: Source<bool>,
    pub permit: Source<u32>,
    pub cmd: Source<String>,
    pub args: Source<Vec<String>>,
    pub envs: Source<Vec<(String, String)>>,
    pub epsilon: Source<Dec>,
    pub extensions: Source<Vec<String>>,
    pub extern_files: Source<Vec<String>>,
    pub assert_spec: Source<Assert>,
}

// ------------------------------------------------------------------
// the mathematical model of a configuration

pub open spec fn str_views(v: Seq<String>) -> Seq<Seq<char>> {
    v.map_values(|s: String| s@)
}

pub open spec fn env_views(v: Seq<(String, String)>) -> Seq<(Seq<char>, Seq<char>)> {
    v.map_values(|p: (String, String)| (p.0@, p.1@))
}

/// The model of a hook.
pub struct PPModel {
    pub cmd: Seq<char>,
    pub args: Option<Seq<Seq<char>>>,
    pub workdir: Option<Seq<char>>,
}

pub open spec fn pp_model(p: PrePostProcess) -> PPModel {
    PPModel {
        cmd: p.cmd@,
        args: match p.args {
            Some(v) => Some(str_views(v@)),
            None => None,
        },
        workdir: match p.workdir {
            Some(w) => Some(w@),
            None => None,
        },
    }
}

pub open spec fn pp_models(v: Seq<PrePostProcess>) -> Seq<PPModel> {
    v.map_values(|p: PrePostProcess| pp_model(p))
}

/// The model of a match rule.
pub struct MatchModel {
    pub pattern: Seq<char>,
    pub count: Option<usize>,
    pub count_at_most: Option<usize>,
    pub count_at_least: Option<usize>,
}

pub open spec fn match_model(m: crate::assert_rules::Match) -> MatchModel {
    MatchModel {
        pattern: m.pattern@,
        count: m.count,
        count_at_most: m.count_at_most,
        count_at_least: m.count_at_least,
    }
}

/// The model of a value rule.
pub struct ValueModel {
    pub pattern_before: Option<Seq<char>>,
    pub pattern_after: Option<Seq<char>>,
    pub value: Option<Dec>,
    pub value_at_most: Option<Dec>,
    pub value_at_least: Option<Dec>,
    pub epsilon: Option<Dec>,
}

pub open spec fn value_model(v: crate::assert_rules::Value) -> ValueModel {
    ValueModel {
        pattern_before: match v.pattern_before {
            Some(x) => Some(x@),
            None => None,
        },
        pattern_after: match v.pattern_after {
            Some(x) => Some(x@),
            None => None,
        },
        value: v.value,
        value_at_most: v.value_at_most,
        value_at_least: v.value_at_least,
        epsilon: v.epsilon,
    }
}

/// The model of a custom rule.
pub struct CustomModel {
    pub cmd: Seq<char>,
    pub envs: Option<Seq<(Seq<char>, Seq<char>)>>,
}

pub open spec fn custom_model(c: crate::assert_rules::Custom) -> CustomModel {
    CustomModel {
        cmd: c.cmd@,
        envs: match c.envs {
            Some(v) => Some(env_views(v@)),
            None => None,
        },
    }
}

/// The model of one golden rule: the artifact pattern and the rules, all
/// over character sequences.
pub struct GModel {
    pub file: Seq<char>,
    pub equal: Option<bool>,
    pub match_rules: Option<Seq<MatchModel>>,
    pub value_rules: Option<Seq<ValueModel>>,
    pub custom: Option<Seq<CustomModel>>,
}

pub open spec fn g_model(g: Golden) -> GModel {
    GModel {
        file: g.file@,
        equal: g.equal,
        match_rules: match g.match_rules {
            Some(v) => Some(v@.map_values(|m: crate::assert_rules::Match| match_model(m))),
            None => None,
        },
        value_rules: match g.value_rules {
            Some(v) => Some(v@.map_values(|m: crate::assert_rules::Value| value_model(m))),
            None => None,
        },
        custom: match g.custom {
            Some(v) => Some(v@.map_values(|m: crate::assert_rules::Custom| custom_model(m))),
            None => None,
        },
    }
}

/// The model of an assertion block.
pub struct AModel {
    pub exit_code: Option<i32>,
    pub golden: Option<Seq<GModel>>,
}

pub open spec fn a_model(a: Assert) -> AModel {
    AModel {
        exit_code: a.exit_code,
        golden: match a.golden {
            Some(gs) => Some(gs@.map_values(|g: Golden| g_model(g))),
            None => None,
        },
    }
}

/// The model of a full configuration: every string a character sequence,
/// every list a sequence, provenance stripped.
pub struct CfgModel {
    pub name: Seq<char>,
    pub extension: Seq<char>,
    pub filtered: bool,
    pub ignore: bool,
    pub print_errs: bool,
    pub permit: u32,
    pub cmd: Seq<char>,
    pub args: Seq<Seq<char>>,
    pub envs: Seq<(Seq<char>, Seq<char>)>,
    pub epsilon: Dec,
    pub extensions: Seq<Seq<char>>,
    pub extern_files: Seq<Seq<char>>,
    pub preprocess: Seq<PPModel>,
    pub postprocess: Seq<PPModel>,
    pub assert_spec: AModel,
}

impl FullConfig {
    pub open spec fn model(self) -> CfgModel {
        CfgModel {
            name: self.name@,
            extension: self.extension@,
            filtered: self.filtered,
            ignore: self.ignore.inner,
            print_errs: self.print_errs.inner,
            permit: self.permit.inner,
            cmd: self.cmd.inner@,
            args: str_views(self.args.inner@),
            envs: env_views(self.envs.inner@),
            epsilon: self.epsilon.inner,
            extensions: str_views(self.extensions.inner@),
            extern_files: str_views(self.extern_files.inner@),
            preprocess: pp_models(self.preprocess.inner@),
            postprocess: pp_models(self.postprocess.inner@),
            assert_spec: a_model(self.assert_spec.inner),
        }
    }
}

// ------------------------------------------------------------------
// insertion-ordered environment maps

pub open spec fn env_has(s: Seq<(Seq<char>, Seq<char>)>, k: Seq<char>) -> bool {
    exists|i: int| 0 <= i < s.len() && s[i].0 == k
}

/// Insertion keeps an existing key's position, updating its value; a new
/// key goes to the end.
pub open spec fn env_insert_spec(
    s: Seq<(Seq<char>, Seq<char>)>,
    k: Seq<char>,
    v: Seq<char>,
) -> Seq<(Seq<char>, Seq<char>)> {
    if env_has(s, k) {
        Seq::new(
            s.len(),
            |i: int|
                if s[i].0 == k {
                    (k, v)
                } else {
                    s[i]
                },
        )
    } else {
        s.push((k, v))
    }
}

/// Inserting every entry of `adds`, left to right.
pub open spec fn env_extend_spec(
    s: Seq<(Seq<char>, Seq<char>)>,
    adds: Seq<(Seq<char>, Seq<char>)>,
) -> Seq<(Seq<char>, Seq<char>)>
    decreases adds.len(),
{
    if adds.len() == 0 {
        s
    } else {
        env_insert_spec(env_extend_spec(s, adds.drop_last()), adds.last().0, adds.last().1)
    }
}

/// An entry is added only when its key is not present yet.
pub open spec fn env_inject_spec(
    s: Seq<(Seq<char>, Seq<char>)>,
    k: Seq<char>,
    v: Seq<char>,
) -> Seq<(Seq<char>, Seq<char>)> {
    if env_has(s, k) {
        s
    } else {
        s.push((k, v))
    }
}

pub open spec fn env_keys_unique(s: Seq<(Seq<char>, Seq<char>)>) -> bool {
    forall|i: int, j: int| 0 <= i < j < s.len() ==> s[i].0 != s[j].0
}

/// Inserts or updates one entry, keeping insertion order.
pub fn env_insert(envs: &mut Vec<(String, String)>, k: String, v: String)
    requires
        env_keys_unique(env_views(old(envs)@)),
    ensures
        env_views(final(envs)@) == env_insert_spec(env_views(old(envs)@), k@, v@),
        env_keys_unique(env_views(final(envs)@)),
{
    let ghost olds = env_views(envs@);
    let ghost k0 = k@;
    let ghost v0 = v@;
    let n = envs.len();
    let mut found: Option<usize> = None;
    let mut i: usize = 0;
    while i < n
        invariant
            i <= n == envs@.len(),
            env_keys_unique(olds),
            olds == env_views(envs@),
            k0 == k@,
            (found matches Some(p) ==> p < i && olds[p as int].0 == k0),
            found is None ==> forall|j: int| 0 <= j < i ==> olds[j].0 != k0,
        decreases n - i,
    {
        if found.is_none() && envs[i].0 == k {
            assert(olds[i as int].0 == k0);
            found = Some(i);
        }
        i += 1;
    }
    match found {
        Some(p) => {
            assert(env_has(olds, k0));
            let mut out: Vec<(String, String)> = Vec::new();
            let mut j: usize = 0;
            while j < n
                invariant
                    j <= n == envs@.len(),
                    p < n,
                    olds == env_views(envs@),
                    olds[p as int].0 == k0,
                    env_keys_unique(olds),
                    k0 == k@,
                    v0 == v@,
                    out@.len() == j,
                    forall|q: int|
                        0 <= q < j ==> env_views(out@)[q] == env_insert_spec(olds, k0, v0)[q],
                decreases n - j,
            {
                let ghost prev = out@;
                if j == p {
                    out.push((k.clone(), v.clone()));
                    proof {
                        assert(env_views(out@)[j as int] == (k0, v0));
                        assert(env_insert_spec(olds, k0, v0)[j as int] == (k0, v0));
                    }
                } else {
                    proof {
                        if olds[j as int].0 == k0 {
                            if j < p {
                                assert(olds[j as int].0 != olds[p as int].0);
                            } else {
                                assert(olds[p as int].0 != olds[j as int].0);
                            }
                            assert(false);
                        }
                    }
                    out.push((envs[j].0.clone(), envs[j].1.clone()));
                    proof {
                        assert(env_views(out@)[j as int] == olds[j as int]);
                        assert(env_insert_spec(olds, k0, v0)[j as int] == olds[j as int]);
                    }
                }
                proof {
                    assert forall|q: int| 0 <= q < j + 1 implies env_views(out@)[q]
                        == env_insert_spec(olds, k0, v0)[q] by {
                        if q < j {
                            assert(out@[q] == prev[q]);
                            assert(env_views(out@)[q] == env_views(prev)[q]);
                        }
                    }
                }
                j += 1;
            }
            proof {
                assert(env_views(out@) =~= env_insert_spec(olds, k0, v0));
            }
            *envs = out;
        },
        None => {
            proof {
                assert(!env_has(olds, k0));
            }
            envs.push((k, v));
            proof {
                assert(env_views(envs@) =~= olds.push((k0, v0)));
            }
        },
    }
}

/// Adds an entry only when its key is not present yet.
pub fn env_insert_if_absent(envs: &mut Vec<(String, String)>, k: String, v: String)
    requires
        env_keys_unique(env_views(old(envs)@)),
    ensures
        env_views(final(envs)@) == env_inject_spec(env_views(old(envs)@), k@, v@),
        env_keys_unique(env_views(final(envs)@)),
{
    let n = envs.len();
    let mut i: usize = 0;
    while i < n
        invariant
            i <= n == envs@.len(),
            env_keys_unique(env_views(envs@)),
            forall|j: int| 0 <= j < i ==> env_views(envs@)[j].0 != k@,
        decreases n - i,
    {
        if envs[i].0 == k {
            assert(env_views(envs@)[i as int].0 == k@);
            assert(env_has(env_views(envs@), k@));
            return ;
        }
        i += 1;
    }
    let ghost olds = env_views(envs@);
    proof {
        assert(!env_has(olds, k@));
    }
    envs.push((k, v));
    proof {
        assert(env_views(envs@) =~= olds.push((k@, v@)));
    }
}

/// Inserts every entry of `adds`, left to right.
pub fn env_extend(envs: &mut Vec<(String, String)>, adds: &Vec<(String, String)>)
    requires
        env_keys_unique(env_views(old(envs)@)),
    ensures
        env_views(final(envs)@) == env_extend_spec(env_views(old(envs)@), env_views(adds@)),
        env_keys_unique(env_views(final(envs)@)),
{
    let ghost base = env_views(envs@);
    let n = adds.len();
    let mut i: usize = 0;
    proof {
        assert(env_views(adds@.take(0)) =~= Seq::<(Seq<char>, Seq<char>)>::empty());
    }
    while i < n
        invariant
            i <= n == adds@.len(),
            env_keys_unique(env_views(envs@)),
            env_views(envs@) == env_extend_spec(base, env_views(adds@.take(i as int))),
        decreases n - i,
    {
        proof {
            assert(env_views(adds@.take(i + 1)) =~= env_views(adds@.take(i as int)).push(
                (adds@[i as int].0@, adds@[i as int].1@),
            ));
            assert(env_views(adds@.take(i + 1)).drop_last() =~= env_views(adds@.take(i as int)));
        }
        env_insert(envs, adds[i].0.clone(), adds[i].1.clone());
        i += 1;
    }
    proof {
        assert(env_views(adds@.take(n as int)) =~= env_views(adds@));
    }
}

// ------------------------------------------------------------------
// the merge

/// Whether a fragment's extension list claims the configuration
/// language's own extension.
pub open spec fn claims_toml(exts: Seq<Seq<char>>) -> bool {
    exists|i: int| 0 <= i < exts.len() && exts[i] == "toml"@
}

/// What the override part of a merge yields: every set field replaces
/// the inherited value.
pub open spec fn override_model(m: CfgModel, f: Config) -> CfgModel {
    CfgModel {
        ignore: match f.ignore {
            Some(b) => b,
            None => m.ignore,
        },
        print_errs: match f.print_errs {
            Some(b) => b,
            None => m.print_errs,
        },
        permit: match f.permit {
            Some(p) => p,
            None => m.permit,
        },
        cmd: match f.cmd {
            Some(c) => c@,
            None => m.cmd,
        },
        epsilon: match f.epsilon {
            Some(e) => e,
            None => m.epsilon,
        },
        extensions: match f.extensions {
            Some(v) => str_views(v@),
            None => m.extensions,
        },
        preprocess: match f.preprocess {
            Some(v) => pp_models(v@),
            None => m.preprocess,
        },
        postprocess: match f.postprocess {
            Some(v) => pp_models(v@),
            None => m.postprocess,
        },
        assert_spec: match f.assert_spec {
            Some(a) => a_model(a),
            None => m.assert_spec,
        },
        args: match f.args {
            Some(v) => str_views(v@),
            None => m.args,
        },
        envs: match f.envs {
            Some(v) => env_views(v@),
            None => m.envs,
        },
        extern_files: match f.extern_files {
            Some(v) => str_views(v@),
            None => m.extern_files,
        },
        ..m
    }
}

/// What the `extend` part of a merge appends: arguments and extern files
/// are concatenated, environment entries inserted in order.
pub open spec fn extend_model(m: CfgModel, e: Option<Extend>) -> CfgModel {
    match e {
        None => m,
        Some(e) => CfgModel {
            args: match e.args {
                Some(v) => m.args + str_views(v@),
                None => m.args,
            },
            envs: match e.envs {
                Some(v) => env_extend_spec(m.envs, env_views(v@)),
                None => m.envs,
            },
            extern_files: match e.extern_files {
                Some(v) => m.extern_files + str_views(v@),
                None => m.extern_files,
            },
            ..m
        },
    }
}

/// What merging one fragment into a configuration yields: a set field
/// overrides, `extend` fields append (arguments, environment, extern
/// files), and everything else is inherited.
pub open spec fn merge_model(m: CfgModel, f: Config) -> CfgModel {
    extend_model(override_model(m, f), f.extend)
}

impl Config {
    /// The fragment's environment entries carry unique keys.
    pub open spec fn wf(self) -> bool {
        &&& (self.envs matches Some(v) ==> env_keys_unique(env_views(v@)))
        &&& (self.extend matches Some(e) ==> (e.envs matches Some(v) ==> env_keys_unique(
            env_views(v@),
        )))
    }
}

impl FullConfig {
    pub open spec fn wf(self) -> bool {
        env_keys_unique(env_views(self.envs.inner@))
    }

    /// Whether a list of extensions claims the configuration language's
    /// own extension.
    fn claims_toml_exec(v: &Vec<String>) -> (r: bool)
        ensures
            r == claims_toml(str_views(v@)),
    {
        let toml = String::from_str("toml");
        proof {
            reveal_strlit("toml");
        }
        let n = v.len();
        let mut i: usize = 0;
        while i < n
            invariant
                i <= n == v@.len(),
                toml@ == "toml"@,
                forall|j: int| 0 <= j < i ==> str_views(v@)[j] != "toml"@,
            decreases n - i,
        {
            if v[i] == toml {
                assert(str_views(v@)[i as int] == "toml"@);
                assert(claims_toml(str_views(v@)));
                return true;
            }
            i += 1;
        }
        false
    }

    /// Applies a fragment's override fields.
    #[verifier::rlimit(100)]
    fn apply_overrides(self, config: Config, config_path: &str, debug: bool) -> (r: Result<
        (FullConfig, Option<Extend>),
        BuildError,
    >)
        requires
            self.wf(),
            config.wf(),
        ensures
            r is Err == (config.extensions matches Some(v) && claims_toml(str_views(v@))),
            (r matches Err(e) ==> e matches BuildError::InputExtToml(p) && p@ == config_path@),
            (r matches Ok(c) ==> c.0.model() == override_model(self.model(), config) && c.0.wf()
                && c.1 == config.extend),
    {
        let mut c = self;
        let Config {
            ignore,
            print_errs,
            permit,
            cmd,
            preprocess,
            postprocess,
            extensions,
            epsilon,
            args,
            envs,
            extern_files,
            extend,
            assert_spec,
        } = config;
        match extensions {
            Some(v) => {
                if Self::claims_toml_exec(&v) {
                    return Err(BuildError::InputExtToml(String::from_str(config_path)));
                }
                c.extensions = Source::with_source(v, config_path, debug);
            },
            None => {},
        }
        match preprocess {
            Some(v) => {
                c.preprocess = Source::with_source(v, config_path, debug);
            },
            None => {},
        }
        match postprocess {
            Some(v) => {
                c.postprocess = Source::with_source(v, config_path, debug);
            },
            None => {},
        }
        match ignore {
            Some(b) => {
                c.ignore = Source::with_source(b, config_path, debug);
            },
            None => {},
        }
        match print_errs {
            Some(b) => {
                c.print_errs = Source::with_source(b, config_path, debug);
            },
            None => {},
        }
        match epsilon {
            Some(e) => {
                c.epsilon = Source::with_source(e, config_path, debug);
            },
            None => {},
        }
        match permit {
            Some(p) => {
                c.permit = Source::with_source(p, config_path, debug);
            },
            None => {},
        }
        match cmd {
            Some(x) => {
                c.cmd = Source::with_source(x, config_path, debug);
            },
            None => {},
        }
        match args {
            Some(v) => {
                c.args = Source::with_source(v, config_path, debug);
            },
            None => {},
        }
        match envs {
            Some(v) => {
                c.envs = Source::with_source(v, config_path, debug);
            },
            None => {},
        }
        match extern_files {
            Some(v) => {
                c.extern_files = Source::with_source(v, config_path, debug);
            },
            None => {},
        }
        match assert_spec {
            Some(a) => {
                c.assert_spec = Source::with_source(a, config_path, debug);
            },
            None => {},
        }
        Ok((c, extend))
    }

    /// Applies a fragment's `extend` block: appends, never replaces.
    fn apply_extend(self, extend: Option<Extend>, config_path: &str, debug: bool) -> (r:
        FullConfig)
        requires
            self.wf(),
        ensures
            r.model() == extend_model(self.model(), extend),
            r.wf(),
    {
        let mut c = self;
        let ghost m0 = c.model();
        match extend {
            Some(e) => {
                match e.args {
                    Some(mut v) => {
                        let ghost va = v@;
                        c.args.inner.append(&mut v);
                        c.args.add_source(config_path, debug);
                        proof {
                            assert(str_views(c.args.inner@) =~= m0.args + str_views(va));
                        }
                    },
                    None => {},
                }
                match e.envs {
                    Some(v) => {
                        env_extend(&mut c.envs.inner, &v);
                        c.envs.add_source(config_path, debug);
                    },
                    None => {},
                }
                match e.extern_files {
                    Some(mut v) => {
                        let ghost va = v@;
                        c.extern_files.inner.append(&mut v);
                        c.extern_files.add_source(config_path, debug);
                        proof {
                            assert(str_views(c.extern_files.inner@) =~= m0.extern_files
                                + str_views(va));
                        }
                    },
                    None => {},
                }
            },
            None => {},
        }
        c
    }

    /// Merges one fragment read from `config_path` into this
    /// configuration: set fields override the inherited values, fields
    /// under `extend` append. A fragment claiming the configuration
    /// language's own extension is a build error, whatever the rest of the
    /// tree holds.
    pub fn update(self, config: Config, config_path: &str, debug: bool) -> (r: Result<
        FullConfig,
        BuildError,
    >)
        requires
            self.wf(),
            config.wf(),
        ensures
            r is Err == (config.extensions matches Some(v) && claims_toml(str_views(v@))),
            (r matches Err(e) ==> e matches BuildError::InputExtToml(p) && p@ == config_path@),
            (r matches Ok(c) ==> c.model() == merge_model(self.model(), config) && c.wf()),
    {
        match self.apply_overrides(config, config_path, debug) {
            Ok((c, extend)) => Ok(c.apply_extend(extend, config_path, debug)),
            Err(e) => Err(e),
        }
    }
}


/// Resolving against a chain of fragments is the top-down fold of the
/// merge: the root defaults, overridden by each ancestor fragment in
/// order, then by the test's own fragment — appended, not replaced, for
/// the fields under `extend`.
pub open spec fn resolve_chain(m: CfgModel, frags: Seq<Config>) -> CfgModel
    decreases frags.len(),
{
    if frags.len() == 0 {
        m
    } else {
        merge_model(resolve_chain(m, frags.drop_last()), frags.last())
    }
}

/// One more fragment merges onto the fold of the chain before it.
pub proof fn lemma_resolve_chain_step(m: CfgModel, frags: Seq<Config>, f: Config)
    ensures
        resolve_chain(m, frags.push(f)) == merge_model(resolve_chain(m, frags), f),
{
    assert(frags.push(f).drop_last() =~= frags);
    assert(frags.push(f).last() == f);
}

// ------------------------------------------------------------------
// construction, validation and template evaluation

/// Expansion applied to every string of a list.
pub open spec fn expand_views(
    v: Seq<Seq<char>>,
    n: Seq<char>,
    e: Seq<char>,
    rt: Seq<char>,
) -> Seq<Seq<char>> {
    v.map_values(|s: Seq<char>| spec_expand(s, n, e, rt))
}

/// Expansion applied to a hook: its command, arguments and working
/// directory.
pub open spec fn pp_expand_model(p: PPModel, n: Seq<char>, e: Seq<char>, rt: Seq<char>) -> PPModel {
    PPModel {
        cmd: spec_expand(p.cmd, n, e, rt),
        args: match p.args {
            Some(v) => Some(expand_views(v, n, e, rt)),
            None => None,
        },
        workdir: match p.workdir {
            Some(w) => Some(spec_expand(w, n, e, rt)),
            None => None,
        },
    }
}

/// Expansion applied to each environment value; keys stay.
pub open spec fn env_expand_vals(
    s: Seq<(Seq<char>, Seq<char>)>,
    n: Seq<char>,
    e: Seq<char>,
    rt: Seq<char>,
) -> Seq<(Seq<char>, Seq<char>)> {
    s.map_values(|p: (Seq<char>, Seq<char>)| (p.0, spec_expand(p.1, n, e, rt)))
}

/// Expansion applied to each golden rule's artifact pattern.
pub open spec fn a_expand_model(a: AModel, n: Seq<char>, e: Seq<char>, rt: Seq<char>) -> AModel {
    AModel {
        exit_code: a.exit_code,
        golden: match a.golden {
            Some(gs) => Some(
                gs.map_values(|g: GModel| GModel { file: spec_expand(g.file, n, e, rt), ..g }),
            ),
            None => None,
        },
    }
}

/// What evaluating a configuration against its test file yields: the
/// file's stem and extension recorded, every string-bearing field
/// expanded, and `name`, `extension` and `rootdir` injected into the
/// environment unless already present.
pub open spec fn eval_model(m: CfgModel, file: Seq<char>, rootdir_abs: Seq<char>) -> CfgModel {
    let bn = after_last(file, '/');
    let name = before_last(bn, '.');
    let ext = after_last(bn, '.');
    CfgModel {
        name: name,
        extension: ext,
        cmd: spec_expand(m.cmd, name, ext, rootdir_abs),
        args: expand_views(m.args, name, ext, rootdir_abs),
        extern_files: expand_views(m.extern_files, name, ext, rootdir_abs),
        envs: env_inject_spec(
            env_inject_spec(
                env_inject_spec(env_expand_vals(m.envs, name, ext, rootdir_abs), "name"@, name),
                "extension"@,
                ext,
            ),
            "rootdir"@,
            rootdir_abs,
        ),
        preprocess: m.preprocess.map_values(|p: PPModel| pp_expand_model(p, name, ext, rootdir_abs)),
        postprocess: m.postprocess.map_values(
            |p: PPModel| pp_expand_model(p, name, ext, rootdir_abs),
        ),
        assert_spec: a_expand_model(m.assert_spec, name, ext, rootdir_abs),
        ..m
    }
}

/// The model of the stand-in configuration of a filtered-out test.
pub open spec fn filtered_model() -> CfgModel {
    CfgModel {
        name: Seq::<char>::empty(),
        extension: Seq::<char>::empty(),
        filtered: true,
        ignore: false,
        print_errs: false,
        permit: 0u32,
        cmd: Seq::<char>::empty(),
        args: Seq::<Seq<char>>::empty(),
        envs: Seq::<(Seq<char>, Seq<char>)>::empty(),
        epsilon: Dec { neg: false, mant: 0u64, exp: 0i64 },
        extensions: Seq::<Seq<char>>::empty(),
        extern_files: Seq::<Seq<char>>::empty(),
        preprocess: Seq::<PPModel>::empty(),
        postprocess: Seq::<PPModel>::empty(),
        assert_spec: AModel { exit_code: None, golden: None },
    }
}

// ------------------------------------------------------------------
// evaluation is idempotent on already-expanded output

pub open spec fn brace_free(s: Seq<char>) -> bool {
    !crate::template::occurs(s, seq!['{', '{'])
}

pub open spec fn views_brace_free(v: Seq<Seq<char>>) -> bool {
    forall|i: int| 0 <= i < v.len() ==> brace_free(#[trigger] v[i])
}

pub open spec fn pp_brace_free(p: PPModel) -> bool {
    &&& brace_free(p.cmd)
    &&& (p.args matches Some(a) ==> views_brace_free(a))
    &&& (p.workdir matches Some(w) ==> brace_free(w))
}

/// No placeholder opening remains in any string-bearing field.
pub open spec fn model_brace_free(m: CfgModel) -> bool {
    &&& brace_free(m.cmd)
    &&& views_brace_free(m.args)
    &&& views_brace_free(m.extern_files)
    &&& (forall|i: int| 0 <= i < m.envs.len() ==> brace_free((#[trigger] m.envs[i]).1))
    &&& (forall|i: int| 0 <= i < m.preprocess.len() ==> pp_brace_free(#[trigger] m.preprocess[i]))
    &&& (forall|i: int| 0 <= i < m.postprocess.len() ==> pp_brace_free(#[trigger] m.postprocess[i]))
    &&& (m.assert_spec.golden matches Some(gs) ==> forall|i: int|
        0 <= i < gs.len() ==> brace_free((#[trigger] gs[i]).file))
}

proof fn lemma_expand_views_id(v: Seq<Seq<char>>, n: Seq<char>, e: Seq<char>, rt: Seq<char>)
    requires
        views_brace_free(v),
    ensures
        expand_views(v, n, e, rt) == v,
{
    assert forall|i: int| 0 <= i < v.len() implies crate::template::spec_expand(
        #[trigger] v[i],
        n,
        e,
        rt,
    ) == v[i] by {
        crate::template::lemma_expand_identity(v[i], n, e, rt);
    }
    assert(expand_views(v, n, e, rt) =~= v);
}

proof fn lemma_env_vals_id(s: Seq<(Seq<char>, Seq<char>)>, n: Seq<char>, e: Seq<char>, rt: Seq<char>)
    requires
        forall|i: int| 0 <= i < s.len() ==> brace_free((#[trigger] s[i]).1),
    ensures
        env_expand_vals(s, n, e, rt) == s,
{
    assert forall|i: int| 0 <= i < s.len() implies crate::template::spec_expand(
        (#[trigger] s[i]).1,
        n,
        e,
        rt,
    ) == s[i].1 by {
        crate::template::lemma_expand_identity(s[i].1, n, e, rt);
    }
    assert(env_expand_vals(s, n, e, rt) =~= s);
}

proof fn lemma_pp_expand_id(v: Seq<PPModel>, n: Seq<char>, e: Seq<char>, rt: Seq<char>)
    requires
        forall|i: int| 0 <= i < v.len() ==> pp_brace_free(#[trigger] v[i]),
    ensures
        v.map_values(|p: PPModel| pp_expand_model(p, n, e, rt)) == v,
{
    assert forall|i: int|
        0 <= i < v.len() implies pp_expand_model(#[trigger] v[i], n, e, rt) == v[i] by {
        let p = v[i];
        crate::template::lemma_expand_identity(p.cmd, n, e, rt);
        match p.args {
            Some(a) => {
                lemma_expand_views_id(a, n, e, rt);
            },
            None => {},
        }
        match p.workdir {
            Some(w) => {
                crate::template::lemma_expand_identity(w, n, e, rt);
            },
            None => {},
        }
        assert(pp_expand_model(p, n, e, rt) == p);
    }
    assert(v.map_values(|p: PPModel| pp_expand_model(p, n, e, rt)) =~= v);
}

proof fn lemma_a_expand_id(a: AModel, n: Seq<char>, e: Seq<char>, rt: Seq<char>)
    requires
        a.golden matches Some(gs) ==> forall|i: int|
            0 <= i < gs.len() ==> brace_free((#[trigger] gs[i]).file),
    ensures
        a_expand_model(a, n, e, rt) == a,
{
    match a.golden {
        Some(gs) => {
            assert forall|i: int|
                0 <= i < gs.len() implies (GModel {
                file: crate::template::spec_expand((#[trigger] gs[i]).file, n, e, rt),
                ..gs[i]
            }) == gs[i] by {
                crate::template::lemma_expand_identity(gs[i].file, n, e, rt);
            }
            assert(gs.map_values(
                |g: GModel| GModel { file: crate::template::spec_expand(g.file, n, e, rt), ..g },
            ) =~= gs);
        },
        None => {},
    }
}

/// Injecting a key makes it present, and leaves every present key present.
proof fn lemma_inject_has(s: Seq<(Seq<char>, Seq<char>)>, k: Seq<char>, v: Seq<char>, k2: Seq<char>)
    ensures
        env_has(env_inject_spec(s, k, v), k),
        env_has(s, k2) ==> env_has(env_inject_spec(s, k, v), k2),
{
    if !env_has(s, k) {
        assert(env_inject_spec(s, k, v).last().0 == k);
        assert(env_has(env_inject_spec(s, k, v), k));
        if env_has(s, k2) {
            let i = choose|i: int| 0 <= i < s.len() && s[i].0 == k2;
            assert(env_inject_spec(s, k, v)[i].0 == k2);
        }
    }
}

/// Evaluation is idempotent on already-expanded output: once no
/// placeholder opening remains in the evaluated configuration, evaluating
/// it again changes nothing — every occurrence was already substituted,
/// and the injected environment entries are already present.
pub proof fn lemma_eval_idempotent(m: CfgModel, file: Seq<char>, root: Seq<char>)
    requires
        model_brace_free(eval_model(m, file, root)),
    ensures
        eval_model(eval_model(m, file, root), file, root) == eval_model(m, file, root),
{
    let m1 = eval_model(m, file, root);
    let bn = after_last(file, '/');
    let name = before_last(bn, '.');
    let ext = after_last(bn, '.');
    crate::template::lemma_expand_identity(m1.cmd, name, ext, root);
    lemma_expand_views_id(m1.args, name, ext, root);
    lemma_expand_views_id(m1.extern_files, name, ext, root);
    lemma_pp_expand_id(m1.preprocess, name, ext, root);
    lemma_pp_expand_id(m1.postprocess, name, ext, root);
    lemma_a_expand_id(m1.assert_spec, name, ext, root);
    // the environment: values unchanged, and the three injected keys are
    // already present
    lemma_env_vals_id(m1.envs, name, ext, root);
    let e0 = env_expand_vals(m.envs, name, ext, root);
    let e1 = env_inject_spec(e0, "name"@, name);
    let e2 = env_inject_spec(e1, "extension"@, ext);
    lemma_inject_has(e0, "name"@, name, "name"@);
    lemma_inject_has(e1, "extension"@, ext, "name"@);
    lemma_inject_has(e2, "rootdir"@, root, "name"@);
    lemma_inject_has(e1, "extension"@, ext, "extension"@);
    lemma_inject_has(e2, "rootdir"@, root, "extension"@);
    lemma_inject_has(e2, "rootdir"@, root, "rootdir"@);
    assert(env_has(m1.envs, "name"@));
    assert(env_has(m1.envs, "extension"@));
    assert(env_has(m1.envs, "rootdir"@));
    assert(env_inject_spec(m1.envs, "name"@, name) == m1.envs);
    assert(env_inject_spec(m1.envs, "extension"@, ext) == m1.envs);
    assert(env_inject_spec(m1.envs, "rootdir"@, root) == m1.envs);
}

/// The configuration names a command, at least one extension, and asks
/// for no more permits than the run owns.
pub open spec fn check_ok(m: CfgModel, permits: u32) -> bool {
    m.permit <= permits && m.cmd.len() > 0 && m.extensions.len() > 0
}

/// Expands every string of a list.
fn expand_vec(v: &Vec<String>, name: &str, ext: &str, root: &str) -> (r: Vec<String>)
    ensures
        str_views(r@) == expand_views(str_views(v@), name@, ext@, root@),
{
    let n = v.len();
    let mut out: Vec<String> = Vec::new();
    let mut i: usize = 0;
    while i < n
        invariant
            i <= n == v@.len(),
            out@.len() == i,
            forall|j: int|
                0 <= j < i ==> (#[trigger] out@[j])@ == spec_expand(v@[j]@, name@, ext@, root@),
        decreases n - i,
    {
        let x = expand(v[i].as_str(), name, ext, root);
        out.push(x);
        i += 1;
    }
    proof {
        assert(str_views(out@) =~= expand_views(str_views(v@), name@, ext@, root@));
    }
    out
}

/// Expands every string of an optional list.
fn expand_opt_vec(v: Option<Vec<String>>, name: &str, ext: &str, root: &str) -> (r: Option<
    Vec<String>,
>)
    ensures
        v is None ==> r is None,
        (v matches Some(x) ==> r matches Some(y) && str_views(y@) == expand_views(
            str_views(x@),
            name@,
            ext@,
            root@,
        )),
{
    match v {
        Some(x) => Some(expand_vec(&x, name, ext, root)),
        None => None,
    }
}

impl FullConfig {
    /// The stand-in configuration of a filtered-out test: never executed.
    pub fn new_filtered() -> (r: FullConfig)
        ensures
            r.filtered,
            r.wf(),
            r.model() == filtered_model(),
    {
        let r = FullConfig {
            name: String::new(),
            extension: String::new(),
            filtered: true,
            ignore: Source::new(false),
            preprocess: Source::new(Vec::new()),
            postprocess: Source::new(Vec::new()),
            print_errs: Source::new(false),
            permit: Source::new(0),
            cmd: Source::new(String::new()),
            args: Source::new(Vec::new()),
            envs: Source::new(Vec::new()),
            epsilon: Source::new(crate::decimal::Dec::zero()),
            extensions: Source::new(Vec::new()),
            extern_files: Source::new(Vec::new()),
            assert_spec: Source::new(Assert { exit_code: None, golden: None }),
        };
        proof {
            assert(r.model().args =~= filtered_model().args);
            assert(r.model().envs =~= filtered_model().envs);
            assert(r.model().extensions =~= filtered_model().extensions);
            assert(r.model().extern_files =~= filtered_model().extern_files);
            assert(r.model().preprocess =~= filtered_model().preprocess);
            assert(r.model().postprocess =~= filtered_model().postprocess);
        }
        r
    }

    /// The root configuration a run starts from: the run's defaults, a
    /// default permit weight of zero (a test consumes budget only when a
    /// fragment asks for some), and a tolerance of one part in ten
    /// billion.
    pub fn new(args: &crate::args::Args) -> (r: FullConfig)
        ensures
            !r.filtered,
            !r.ignore.inner,
            r.print_errs.inner == args.print_errs,
            r.permit.inner == 0u32,
            r.cmd.inner@ == args.exe_path@,
            str_views(r.args.inner@) == str_views(args.args@),
            str_views(r.extensions.inner@) == str_views(args.extensions@),
            r.envs.inner@.len() == 0,
            r.epsilon.inner == (Dec { neg: false, mant: 1u64, exp: -10i64 }),
            r.wf(),
    {
        FullConfig {
            name: String::new(),
            extension: String::new(),
            filtered: false,
            ignore: Source::new(false),
            preprocess: Source::new(Vec::new()),
            postprocess: Source::new(Vec::new()),
            print_errs: Source::new(args.print_errs),
            permit: Source::new(0),
            cmd: Source::new(args.exe_path.clone()),
            args: Source::new(args.args.clone()),
            envs: Source::new(Vec::new()),
            epsilon: Source::new(Dec::new(false, 1, -10)),
            extensions: Source::new(args.extensions.clone()),
            extern_files: Source::new(Vec::new()),
            assert_spec: Source::new(Assert { exit_code: None, golden: None }),
        }
    }

    /// Whether the file's extension is one this configuration accepts.
    pub fn match_extension(&self, file: &str) -> (r: bool)
        ensures
            r == (contains_char(after_last(file@, '/'), '.') && crate::args::str_list_has(
                self.extensions.inner@,
                after_last(after_last(file@, '/'), '.'),
            )),
    {
        let bn = path_basename(file);
        match split_extension(bn.as_str()) {
            Some((_, ext)) => crate::args::list_contains(&self.extensions.inner, &ext),
            None => false,
        }
    }

    /// Validates the resolved configuration of one test: the permits it
    /// asks for must fit the run's budget, and a command and at least one
    /// extension must have been named.
    pub fn check(&self, file: &str, permits: u32) -> (r: Option<BuildError>)
        ensures
            self.permit.inner > permits ==> (r matches Some(BuildError::PermitEcxceed(p, a, t))
                && p@ == file@ && a == self.permit.inner && t == permits),
            self.permit.inner <= permits && self.cmd.inner@.len() == 0 ==> (r matches Some(
                BuildError::MissConfig(p, w),
            ) && p@ == file@ && w@ == "cmd"@),
            self.permit.inner <= permits && self.cmd.inner@.len() > 0
                && self.extensions.inner@.len() == 0 ==> (r matches Some(
                BuildError::MissConfig(p, w),
            ) && p@ == file@ && w@ == "extensions"@),
            r is None == check_ok(self.model(), permits),
    {
        if self.permit.inner > permits {
            return Some(
                BuildError::PermitEcxceed(
                    String::from_str(file),
                    self.permit.inner,
                    permits,
                ),
            );
        }
        if self.cmd.inner.as_str().unicode_len() == 0 {
            return Some(
                BuildError::MissConfig(String::from_str(file), String::from_str("cmd")),
            );
        }
        if self.extensions.inner.len() == 0 {
            return Some(
                BuildError::MissConfig(String::from_str(file), String::from_str("extensions")),
            );
        }
        None
    }

    /// Finalizes the configuration for one test file: validates it,
    /// records the file's stem and extension, expands the template
    /// placeholders in every string-bearing field, and injects `name`,
    /// `extension` and `rootdir` into the environment unless already
    /// present.
    #[verifier::rlimit(100)]
    pub fn eval(self, file: &str, args: &crate::args::Args) -> (r: Result<FullConfig, BuildError>)
        requires
            self.wf(),
            contains_char(after_last(file@, '/'), '.'),
        ensures
            self.permit.inner > args.permits ==> (r matches Err(BuildError::PermitEcxceed(p, a, t))
                && p@ == file@ && a == self.permit.inner && t == args.permits),
            r is Ok == check_ok(self.model(), args.permits),
            (r matches Ok(c) ==> c.model() == eval_model(self.model(), file@, args.rootdir_abs@)
                && c.wf()),
    {
        match self.check(file, args.permits) {
            Some(e) => {
                return Err(e);
            },
            None => {},
        }
        let mut c = self;
        let ghost m0 = c.model();
        let bn = path_basename(file);
        let (name_s, ext_s) = match split_extension(bn.as_str()) {
            Some(p) => p,
            None => {
                // the caller guarantees the file name carries an extension
                proof {
                    assert(false);
                }
                (String::new(), String::new())
            },
        };
        let name = name_s.as_str();
        let ext = ext_s.as_str();
        let root = args.rootdir_abs.as_str();
        c.name = String::from_str(name);
        c.extension = String::from_str(ext);
        // the command
        let cmd2 = expand(c.cmd.inner.as_str(), name, ext, root);
        c.cmd.inner = cmd2;
        // plain string lists
        let args2 = expand_vec(&c.args.inner, name, ext, root);
        c.args.inner = args2;
        let extern2 = expand_vec(&c.extern_files.inner, name, ext, root);
        c.extern_files.inner = extern2;
        // hooks
        let pre = expand_hooks(c.preprocess.inner, name, ext, root);
        c.preprocess.inner = pre;
        let post = expand_hooks(c.postprocess.inner, name, ext, root);
        c.postprocess.inner = post;
        // environment values, then the injected entries
        let envs2 = expand_env_vals(c.envs.inner, name, ext, root);
        c.envs.inner = envs2;
        env_insert_if_absent(&mut c.envs.inner, String::from_str("name"), name_s.clone());
        env_insert_if_absent(&mut c.envs.inner, String::from_str("extension"), ext_s.clone());
        env_insert_if_absent(
            &mut c.envs.inner,
            String::from_str("rootdir"),
            args.rootdir_abs.clone(),
        );
        // golden artifact patterns
        let a2 = expand_assert(c.assert_spec.inner, name, ext, root);
        c.assert_spec.inner = a2;
        proof {
            let fm = eval_model(m0, file@, args.rootdir_abs@);
            assert(c.model().envs =~= fm.envs);
            assert(c.model() == fm);
        }
        Ok(c)
    }
}

/// Expands the command, arguments and working directory of every hook.
fn expand_hooks(v: Vec<PrePostProcess>, name: &str, ext: &str, root: &str) -> (r: Vec<
    PrePostProcess,
>)
    ensures
        pp_models(r@) == pp_models(v@).map_values(
            |p: PPModel| pp_expand_model(p, name@, ext@, root@),
        ),
{
    let mut v = v;
    let n = v.len();
    let ghost all = v@;
    let mut out: Vec<PrePostProcess> = Vec::new();
    let mut i: usize = 0;
    while i < n
        invariant
            i <= n == all.len(),
            v@ =~= all.skip(i as int),
            out@.len() == i,
            forall|j: int|
                0 <= j < i ==> pp_model(#[trigger] out@[j]) == pp_expand_model(
                    pp_model(all[j]),
                    name@,
                    ext@,
                    root@,
                ),
        decreases n - i,
    {
        let ghost prev = out@;
        assert(v@[0] == all[i as int]);
        let h = v.remove(0);
        let PrePostProcess { cmd, args, workdir } = h;
        let cmd2 = expand(cmd.as_str(), name, ext, root);
        let args2 = expand_opt_vec(args, name, ext, root);
        let wd2: Option<String> = match workdir {
            Some(w) => Some(expand(w.as_str(), name, ext, root)),
            None => None,
        };
        out.push(PrePostProcess { cmd: cmd2, args: args2, workdir: wd2 });
        proof {
            assert(pp_model(out@[i as int]) == pp_expand_model(
                pp_model(all[i as int]),
                name@,
                ext@,
                root@,
            ));
            assert(forall|j: int| 0 <= j < i ==> #[trigger] out@[j] == prev[j]);
        }
        i += 1;
        proof {
            assert(v@ =~= all.skip(i as int));
        }
    }
    proof {
        assert(pp_models(out@) =~= pp_models(all).map_values(
            |p: PPModel| pp_expand_model(p, name@, ext@, root@),
        ));
    }
    out
}

/// Expands every environment value, keeping the keys.
fn expand_env_vals(v: Vec<(String, String)>, name: &str, ext: &str, root: &str) -> (r: Vec<
    (String, String),
>)
    ensures
        env_views(r@) == env_expand_vals(env_views(v@), name@, ext@, root@),
        env_keys_unique(env_views(v@)) ==> env_keys_unique(env_views(r@)),
{
    let n = v.len();
    let mut out: Vec<(String, String)> = Vec::new();
    let mut i: usize = 0;
    while i < n
        invariant
            i <= n == v@.len(),
            out@.len() == i,
            forall|j: int|
                0 <= j < i ==> (#[trigger] out@[j]).0@ == v@[j].0@ && out@[j].1@ == spec_expand(
                    v@[j].1@,
                    name@,
                    ext@,
                    root@,
                ),
        decreases n - i,
    {
        let val = expand(v[i].1.as_str(), name, ext, root);
        out.push((v[i].0.clone(), val));
        i += 1;
    }
    proof {
        assert(env_views(out@) =~= env_expand_vals(env_views(v@), name@, ext@, root@));
        if env_keys_unique(env_views(v@)) {
            assert forall|a: int, b: int|
                0 <= a < b < env_views(out@).len() implies env_views(out@)[a].0 != env_views(
                out@,
            )[b].0 by {
                assert(env_views(out@)[a].0 == env_views(v@)[a].0);
                assert(env_views(out@)[b].0 == env_views(v@)[b].0);
            }
        }
    }
    out
}

/// Expands every golden rule's artifact pattern.
fn expand_assert(a: Assert, name: &str, ext: &str, root: &str) -> (r: Assert)
    ensures
        a_model(r) == a_expand_model(a_model(a), name@, ext@, root@),
{
    let Assert { exit_code, golden } = a;
    match golden {
        None => Assert { exit_code, golden: None },
        Some(gs) => {
            let mut gs = gs;
            let n = gs.len();
            let ghost all = gs@;
            let mut out: Vec<Golden> = Vec::new();
            let mut i: usize = 0;
            let ghost gmodels = all.map_values(|g: Golden| g_model(g));
            while i < n
                invariant
                    i <= n == all.len(),
                    gs@ =~= all.skip(i as int),
                    out@.len() == i,
                    gmodels == all.map_values(|g: Golden| g_model(g)),
                    forall|j: int|
                        0 <= j < i ==> g_model(#[trigger] out@[j]) == (GModel {
                            file: spec_expand(gmodels[j].file, name@, ext@, root@),
                            ..gmodels[j]
                        }),
                decreases n - i,
            {
                let ghost prev = out@;
                assert(gs@[0] == all[i as int]);
                let g = gs.remove(0);
                let Golden { file, equal, match_rules, value_rules, custom } = g;
                let f2 = expand(file.as_str(), name, ext, root);
                out.push(Golden { file: f2, equal, match_rules, value_rules, custom });
                proof {
                    assert(forall|j: int| 0 <= j < i ==> #[trigger] out@[j] == prev[j]);
                    assert(g_model(out@[i as int]) == (GModel {
                        file: spec_expand(gmodels[i as int].file, name@, ext@, root@),
                        ..gmodels[i as int]
                    }));
                }
                i += 1;
                proof {
                    assert(gs@ =~= all.skip(i as int));
                }
            }
            proof {
                assert(out@.map_values(|g: Golden| g_model(g)) =~= gmodels.map_values(
                    |g: GModel| GModel { file: spec_expand(g.file, name@, ext@, root@), ..g },
                ));
            }
            Assert { exit_code, golden: Some(out) }
        },
    }
}


// ------------------------------------------------------------------
// specified deep copies (a derived clone carries no contract)

/// Copies a string list, keeping its contents.
pub fn copy_strings(v: &Vec<String>) -> (r: Vec<String>)
    ensures
        str_views(r@) == str_views(v@),
        r@.len() == v@.len(),
        forall|i: int| 0 <= i < v@.len() ==> (#[trigger] r@[i])@ == v@[i]@,
{
    let n = v.len();
    let mut out: Vec<String> = Vec::new();
    let mut i: usize = 0;
    while i < n
        invariant
            i <= n == v@.len(),
            out@.len() == i,
            forall|j: int| 0 <= j < i ==> (#[trigger] out@[j])@ == v@[j]@,
        decreases n - i,
    {
        out.push(v[i].clone());
        i += 1;
    }
    proof {
        assert(str_views(out@) =~= str_views(v@));
    }
    out
}

/// Copies an environment list, keeping its entries.
pub fn copy_envs(v: &Vec<(String, String)>) -> (r: Vec<(String, String)>)
    ensures
        env_views(r@) == env_views(v@),
{
    let n = v.len();
    let mut out: Vec<(String, String)> = Vec::new();
    let mut i: usize = 0;
    while i < n
        invariant
            i <= n == v@.len(),
            out@.len() == i,
            forall|j: int|
                0 <= j < i ==> (#[trigger] out@[j]).0@ == v@[j].0@ && out@[j].1@ == v@[j].1@,
        decreases n - i,
    {
        out.push((v[i].0.clone(), v[i].1.clone()));
        i += 1;
    }
    proof {
        assert(env_views(out@) =~= env_views(v@));
    }
    out
}

fn copy_opt_strings(v: &Option<Vec<String>>) -> (r: Option<Vec<String>>)
    ensures
        v is None ==> r is None,
        (v matches Some(x) ==> r matches Some(y) && str_views(y@) == str_views(x@)),
{
    match v {
        Some(x) => Some(copy_strings(x)),
        None => None,
    }
}

/// Copies a hook list, keeping its model.
fn copy_hooks(v: &Vec<PrePostProcess>) -> (r: Vec<PrePostProcess>)
    ensures
        pp_models(r@) == pp_models(v@),
{
    let n = v.len();
    let mut out: Vec<PrePostProcess> = Vec::new();
    let mut i: usize = 0;
    while i < n
        invariant
            i <= n == v@.len(),
            out@.len() == i,
            forall|j: int| 0 <= j < i ==> pp_model(#[trigger] out@[j]) == pp_model(v@[j]),
        decreases n - i,
    {
        let wd: Option<String> = match &v[i].workdir {
            Some(w) => Some(w.clone()),
            None => None,
        };
        out.push(
            PrePostProcess { cmd: v[i].cmd.clone(), args: copy_opt_strings(&v[i].args), workdir: wd },
        );
        i += 1;
    }
    proof {
        assert(pp_models(out@) =~= pp_models(v@));
    }
    out
}

fn copy_match(m: &crate::assert_rules::Match) -> (r: crate::assert_rules::Match)
    ensures
        r.pattern@ == m.pattern@,
        r.count == m.count,
        r.count_at_most == m.count_at_most,
        r.count_at_least == m.count_at_least,
{
    crate::assert_rules::Match {
        pattern: m.pattern.clone(),
        count: m.count,
        count_at_most: m.count_at_most,
        count_at_least: m.count_at_least,
    }
}

fn copy_value(v: &crate::assert_rules::Value) -> (r: crate::assert_rules::Value)
    ensures
        (v.pattern_before matches Some(x) ==> r.pattern_before matches Some(y) && y@ == x@),
        v.pattern_before is None ==> r.pattern_before is None,
        (v.pattern_after matches Some(x) ==> r.pattern_after matches Some(y) && y@ == x@),
        v.pattern_after is None ==> r.pattern_after is None,
        r.value == v.value,
        r.value_at_most == v.value_at_most,
        r.value_at_least == v.value_at_least,
        r.epsilon == v.epsilon,
{
    crate::assert_rules::Value {
        pattern_before: match &v.pattern_before {
            Some(x) => Some(x.clone()),
            None => None,
        },
        pattern_after: match &v.pattern_after {
            Some(x) => Some(x.clone()),
            None => None,
        },
        value: v.value,
        value_at_most: v.value_at_most,
        value_at_least: v.value_at_least,
        epsilon: v.epsilon,
    }
}

fn copy_custom(c: &crate::assert_rules::Custom) -> (r: crate::assert_rules::Custom)
    ensures
        r.cmd@ == c.cmd@,
        c.envs is None ==> r.envs is None,
        (c.envs matches Some(x) ==> r.envs matches Some(y) && env_views(y@) == env_views(x@)),
{
    crate::assert_rules::Custom {
        cmd: c.cmd.clone(),
        envs: match &c.envs {
            Some(x) => Some(copy_envs(x)),
            None => None,
        },
    }
}

impl FullConfig {
    /// A deep copy whose model equals this configuration's model. The
    /// assertion rules are copied structurally, so the copy behaves the
    /// same under every check; provenance is carried over too.
    #[verifier::rlimit(60)]
    pub fn duplicate(&self) -> (r: FullConfig)
        ensures
            r.model().name == self.model().name,
            r.model().extension == self.model().extension,
            r.model().filtered == self.model().filtered,
            r.model().ignore == self.model().ignore,
            r.model().print_errs == self.model().print_errs,
            r.model().permit == self.model().permit,
            r.model().cmd == self.model().cmd,
            r.model().args == self.model().args,
            r.model().envs == self.model().envs,
            r.model().epsilon == self.model().epsilon,
            r.model().extensions == self.model().extensions,
            r.model().extern_files == self.model().extern_files,
            r.model().preprocess == self.model().preprocess,
            r.model().postprocess == self.model().postprocess,
            r.model().assert_spec == self.model().assert_spec,
            r.model() == self.model(),
            self.wf() ==> r.wf(),
    {
        FullConfig {
            name: self.name.clone(),
            extension: self.extension.clone(),
            filtered: self.filtered,
            ignore: Source { source: copy_strings(&self.ignore.source), inner: self.ignore.inner },
            preprocess: Source {
                source: copy_strings(&self.preprocess.source),
                inner: copy_hooks(&self.preprocess.inner),
            },
            postprocess: Source {
                source: copy_strings(&self.postprocess.source),
                inner: copy_hooks(&self.postprocess.inner),
            },
            print_errs: Source {
                source: copy_strings(&self.print_errs.source),
                inner: self.print_errs.inner,
            },
            permit: Source { source: copy_strings(&self.permit.source), inner: self.permit.inner },
            cmd: Source { source: copy_strings(&self.cmd.source), inner: self.cmd.inner.clone() },
            args: Source {
                source: copy_strings(&self.args.source),
                inner: copy_strings(&self.args.inner),
            },
            envs: Source {
                source: copy_strings(&self.envs.source),
                inner: copy_envs(&self.envs.inner),
            },
            epsilon: Source {
                source: copy_strings(&self.epsilon.source),
                inner: self.epsilon.inner,
            },
            extensions: Source {
                source: copy_strings(&self.extensions.source),
                inner: copy_strings(&self.extensions.inner),
            },
            extern_files: Source {
                source: copy_strings(&self.extern_files.source),
                inner: copy_strings(&self.extern_files.inner),
            },
            assert_spec: Source {
                source: copy_strings(&self.assert_spec.source),
                inner: copy_assert(&self.assert_spec.inner),
            },
        }
    }
}

/// Copies an assertion block, keeping its model.
#[verifier::rlimit(100)]
pub fn copy_assert(a: &Assert) -> (r: Assert)
    ensures
        a_model(r) == a_model(*a),
{
    Assert {
        exit_code: a.exit_code,
        golden: match &a.golden {
            Some(gs) => {
                let n = gs.len();
                let mut out: Vec<Golden> = Vec::new();
                let mut i: usize = 0;
                while i < n
                    invariant
                        i <= n == gs@.len(),
                        out@.len() == i,
                        forall|j: int| 0 <= j < i ==> g_model(#[trigger] out@[j]) == g_model(gs@[j]),
                    decreases n - i,
                {
                    let g = &gs[i];
                    let mr: Option<Vec<crate::assert_rules::Match>> = match &g.match_rules {
                        Some(ms) => {
                            let mut v: Vec<crate::assert_rules::Match> = Vec::new();
                            let mut j: usize = 0;
                            while j < ms.len()
                                invariant
                                    j <= ms@.len(),
                                    v@.len() == j,
                                    forall|q: int|
                                        0 <= q < j ==> match_model(#[trigger] v@[q]) == match_model(
                                            ms@[q],
                                        ),
                                decreases ms.len() - j,
                            {
                                v.push(copy_match(&ms[j]));
                                j += 1;
                            }
                            proof {
                                assert(v@.map_values(
                                    |m: crate::assert_rules::Match| match_model(m),
                                ) =~= ms@.map_values(
                                    |m: crate::assert_rules::Match| match_model(m),
                                ));
                            }
                            Some(v)
                        },
                        None => None,
                    };
                    let vr: Option<Vec<crate::assert_rules::Value>> = match &g.value_rules {
                        Some(vs) => {
                            let mut v: Vec<crate::assert_rules::Value> = Vec::new();
                            let mut j: usize = 0;
                            while j < vs.len()
                                invariant
                                    j <= vs@.len(),
                                    v@.len() == j,
                                    forall|q: int|
                                        0 <= q < j ==> value_model(#[trigger] v@[q]) == value_model(
                                            vs@[q],
                                        ),
                                decreases vs.len() - j,
                            {
                                v.push(copy_value(&vs[j]));
                                j += 1;
                            }
                            proof {
                                assert(v@.map_values(
                                    |m: crate::assert_rules::Value| value_model(m),
                                ) =~= vs@.map_values(
                                    |m: crate::assert_rules::Value| value_model(m),
                                ));
                            }
                            Some(v)
                        },
                        None => None,
                    };
                    let cr: Option<Vec<crate::assert_rules::Custom>> = match &g.custom {
                        Some(cs) => {
                            let mut v: Vec<crate::assert_rules::Custom> = Vec::new();
                            let mut j: usize = 0;
                            while j < cs.len()
                                invariant
                                    j <= cs@.len(),
                                    v@.len() == j,
                                    forall|q: int|
                                        0 <= q < j ==> custom_model(#[trigger] v@[q])
                                            == custom_model(cs@[q]),
                                decreases cs.len() - j,
                            {
                                v.push(copy_custom(&cs[j]));
                                j += 1;
                            }
                            proof {
                                assert(v@.map_values(
                                    |m: crate::assert_rules::Custom| custom_model(m),
                                ) =~= cs@.map_values(
                                    |m: crate::assert_rules::Custom| custom_model(m),
                                ));
                            }
                            Some(v)
                        },
                        None => None,
                    };
                    out.push(
                        Golden {
                            file: g.file.clone(),
                            equal: g.equal,
                            match_rules: mr,
                            value_rules: vr,
                            custom: cr,
                        },
                    );
                    i += 1;
                }
                proof {
                    assert(out@.map_values(|g: Golden| g_model(g)) =~= gs@.map_values(
                        |g: Golden| g_model(g),
                    ));
                }
                Some(out)
            },
            None => None,
        },
    }
}

} // verus!
