//! Configuration resolution: template expansion, fragment merging down
//! the tree, validation, and the run-level scenarios.

use cargo_regression::args::Args;
use cargo_regression::assert_engine::{Assert, Golden, GoldenInput};
use cargo_regression::assert_rules::AssertConfig;
use cargo_regression::config::{Config, Extend, FullConfig};
use cargo_regression::decimal::Dec;
use cargo_regression::regression::BuildError;
use cargo_regression::report::finish_state;
use cargo_regression::resolve::{walk, DirNode, FileEntry};
use cargo_regression::template::expand;

fn empty_config() -> Config {
    Config {
        ignore: None,
        print_errs: None,
        permit: None,
        cmd: None,
        preprocess: None,
        postprocess: None,
        extensions: None,
        epsilon: None,
        args: None,
        envs: None,
        extern_files: None,
        extend: None,
        assert_spec: None,
    }
}

fn base_args() -> Args {
    let a = Args::new("demo").extensions(vec![String::from("sh")]).exe_path("bash");
    a.finalize(String::from("/abs/demo"), vec![], vec![]).unwrap()
}

fn leaf(name: &str) -> FileEntry {
    FileEntry {
        name: String::from(name),
        canon: format!("/abs/demo/{name}"),
        fragment: None,
    }
}

#[test]
fn expansion_substitutes_every_occurrence() {
    let r = expand("{{name}} {{name}}.{{extension}} {{rootdir}}", "a", "sh", "/r");
    assert_eq!(r, "a a.sh /r");
}

#[test]
fn expansion_is_idempotent_on_expanded_output() {
    let once = expand("run {{name}}.{{extension}}", "case1", "sh", "/root/tree");
    let twice = expand(&once, "case1", "sh", "/root/tree");
    assert_eq!(once, twice);
}

#[test]
fn merge_overrides_and_extend_appends() {
    let args = base_args();
    let root = FullConfig::new(&args);
    let mut frag = empty_config();
    frag.args = Some(vec![String::from("x")]);
    frag.envs = Some(vec![(String::from("k1"), String::from("v1"))]);
    let c1 = root.update(frag, "demo/__all__.toml", false).unwrap();
    let mut frag2 = empty_config();
    frag2.extend = Some(Extend {
        args: Some(vec![String::from("y")]),
        envs: Some(vec![
            (String::from("k1"), String::from("v2")),
            (String::from("k2"), String::from("w")),
        ]),
        extern_files: None,
    });
    let c2 = c1.update(frag2, "demo/case.toml", false).unwrap();
    assert_eq!(c2.args.inner, vec![String::from("x"), String::from("y")]);
    // an extended key keeps its position and takes the new value
    assert_eq!(
        c2.envs.inner,
        vec![
            (String::from("k1"), String::from("v2")),
            (String::from("k2"), String::from("w")),
        ]
    );
}

#[test]
fn test_parse_like_fragment_resolves() {
    // the shape of a full fragment: overrides plus extend
    let args = base_args();
    let root = FullConfig::new(&args);
    let mut frag = empty_config();
    frag.cmd = Some(String::from("python"));
    frag.args = Some(vec![
        String::from("{{name}}.py"),
        String::from("var1"),
        String::from("var2"),
    ]);
    frag.envs = Some(vec![
        (String::from("k1"), String::from("v1")),
        (String::from("k2"), String::from("v2")),
    ]);
    frag.extend = Some(Extend {
        args: Some(vec![String::from("var3"), String::from("var4")]),
        envs: Some(vec![
            (String::from("k3"), String::from("v3")),
            (String::from("k4"), String::from("v4")),
        ]),
        extern_files: None,
    });
    let c = root.update(frag, "t.toml", false).unwrap();
    assert_eq!(c.cmd.inner, "python");
    assert_eq!(c.args.inner.len(), 5);
    assert_eq!(c.envs.inner.len(), 4);
}

#[test]
fn resolve_simple_tree() {
    // a root fragment configures the run; the single test resolves
    // against it, fully expanded
    let args = base_args();
    let mut frag = empty_config();
    frag.envs = Some(vec![(String::from("greet"), String::from("hi {{name}}"))]);
    let tree = DirNode {
        path: String::from("demo"),
        name: String::from("demo"),
        fragment: Some((frag, String::from("demo/__all__.toml"))),
        files: vec![leaf("a.sh")],
        subdirs: vec![],
    };
    let entries = walk(FullConfig::new(&args), tree, &args).unwrap();
    assert_eq!(entries.len(), 1);
    let (path, c) = &entries[0];
    assert_eq!(path, "demo/a.sh");
    assert_eq!(c.name, "a");
    assert_eq!(c.extension, "sh");
    assert_eq!(c.cmd.inner, "bash");
    // the default argument template expands to the file itself
    assert_eq!(c.args.inner, vec![String::from("a.sh")]);
    // environment values expand, and name/extension/rootdir are injected
    let envs = &c.envs.inner;
    assert_eq!(envs[0], (String::from("greet"), String::from("hi a")));
    assert!(envs.contains(&(String::from("name"), String::from("a"))));
    assert!(envs.contains(&(String::from("extension"), String::from("sh"))));
    assert!(envs.contains(&(String::from("rootdir"), String::from("/abs/demo"))));
}

#[test]
fn resolve_orders_parent_before_child() {
    // the child directory sees the parent's merged result and overrides it
    let args = base_args();
    let mut pfrag = empty_config();
    pfrag.permit = Some(1);
    pfrag.envs = Some(vec![(String::from("lvl"), String::from("top"))]);
    let mut cfrag = empty_config();
    cfrag.envs = Some(vec![(String::from("lvl"), String::from("sub"))]);
    let tree = DirNode {
        path: String::from("demo"),
        name: String::from("demo"),
        fragment: Some((pfrag, String::from("demo/__all__.toml"))),
        files: vec![leaf("top.sh")],
        subdirs: vec![DirNode {
            path: String::from("demo/sub"),
            name: String::from("sub"),
            fragment: Some((cfrag, String::from("demo/sub/__all__.toml"))),
            files: vec![FileEntry {
                name: String::from("deep.sh"),
                canon: String::from("/abs/demo/sub/deep.sh"),
                fragment: None,
            }],
            subdirs: vec![],
        }],
    };
    let entries = walk(FullConfig::new(&args), tree, &args).unwrap();
    assert_eq!(entries.len(), 2);
    assert_eq!(entries[0].0, "demo/top.sh");
    assert_eq!(entries[1].0, "demo/sub/deep.sh");
    assert_eq!(entries[0].1.envs.inner[0].1, "top");
    assert_eq!(entries[1].1.envs.inner[0].1, "sub");
}

#[test]
fn golden_directory_is_skipped() {
    let args = base_args();
    let tree = DirNode {
        path: String::from("demo"),
        name: String::from("demo"),
        fragment: None,
        files: vec![leaf("a.sh")],
        subdirs: vec![DirNode {
            path: String::from("demo/__golden__"),
            name: String::from("__golden__"),
            fragment: None,
            files: vec![leaf("ghost.sh")],
            subdirs: vec![],
        }],
    };
    let entries = walk(FullConfig::new(&args), tree, &args).unwrap();
    assert_eq!(entries.len(), 1);
    assert_eq!(entries[0].0, "demo/a.sh");
}

#[test]
fn filtered_file_gets_a_stand_in() {
    let args = Args::new("demo")
        .extensions(vec![String::from("sh")])
        .exe_path("bash")
        .included(vec![String::from("demo/b.sh")])
        .finalize(
            String::from("/abs/demo"),
            vec![String::from("/abs/demo/b.sh")],
            vec![],
        )
        .unwrap();
    let tree = DirNode {
        path: String::from("demo"),
        name: String::from("demo"),
        fragment: None,
        files: vec![leaf("a.sh"), leaf("b.sh")],
        subdirs: vec![],
    };
    let entries = walk(FullConfig::new(&args), tree, &args).unwrap();
    assert_eq!(entries.len(), 2);
    assert!(entries[0].1.filtered);
    assert!(!entries[1].1.filtered);
}

#[test]
fn permit_exceeding_budget_aborts_the_build() {
    // a fragment asks for five permits while the run owns one
    let args = base_args();
    let mut frag = empty_config();
    frag.permit = Some(5);
    let tree = DirNode {
        path: String::from("demo"),
        name: String::from("demo"),
        fragment: Some((frag, String::from("demo/__all__.toml"))),
        files: vec![leaf("a.sh")],
        subdirs: vec![],
    };
    let errs = walk(FullConfig::new(&args), tree, &args).unwrap_err();
    assert_eq!(errs.len(), 1);
    match &errs[0] {
        BuildError::PermitEcxceed(path, asked, total) => {
            assert_eq!(path, "demo/a.sh");
            assert_eq!(*asked, 5);
            assert_eq!(*total, 1);
        }
        other => panic!("unexpected {:?}", other),
    }
}

#[test]
fn toml_extension_in_a_fragment_is_a_build_error() {
    let args = base_args();
    let mut frag = empty_config();
    frag.extensions = Some(vec![String::from("toml")]);
    let tree = DirNode {
        path: String::from("demo"),
        name: String::from("demo"),
        fragment: Some((frag, String::from("demo/__all__.toml"))),
        files: vec![leaf("a.sh")],
        subdirs: vec![],
    };
    let errs = walk(FullConfig::new(&args), tree, &args).unwrap_err();
    assert_eq!(errs.len(), 1);
    assert!(matches!(&errs[0], BuildError::InputExtToml(p) if p == "demo/__all__.toml"));
}

#[test]
fn sibling_errors_are_collected_together() {
    // two files with failing fragments: both errors surface
    let args = base_args();
    let mut bad1 = empty_config();
    bad1.permit = Some(9);
    let mut bad2 = empty_config();
    bad2.extensions = Some(vec![String::from("toml")]);
    let tree = DirNode {
        path: String::from("demo"),
        name: String::from("demo"),
        fragment: None,
        files: vec![
            FileEntry {
                name: String::from("a.sh"),
                canon: String::from("/abs/demo/a.sh"),
                fragment: Some((bad1, String::from("demo/a.toml"))),
            },
            FileEntry {
                name: String::from("b.sh"),
                canon: String::from("/abs/demo/b.sh"),
                fragment: Some((bad2, String::from("demo/b.toml"))),
            },
        ],
        subdirs: vec![],
    };
    let errs = walk(FullConfig::new(&args), tree, &args).unwrap_err();
    assert_eq!(errs.len(), 2);
}

#[test]
fn missing_command_is_a_build_error() {
    let args = Args::new("demo")
        .extensions(vec![String::from("sh")])
        .finalize(String::from("/abs/demo"), vec![], vec![])
        .unwrap();
    let tree = DirNode {
        path: String::from("demo"),
        name: String::from("demo"),
        fragment: None,
        files: vec![leaf("a.sh")],
        subdirs: vec![],
    };
    let errs = walk(FullConfig::new(&args), tree, &args).unwrap_err();
    assert!(matches!(&errs[0], BuildError::MissConfig(_, what) if what == "cmd"));
}

#[test]
fn scenario_ok_then_failed() {
    // a.sh prints "ok\n"; the golden stdout holds "ok\n": the run passes.
    // With "fail\n" recorded instead, the outcome carries one Eq error.
    let args = base_args();
    let mut frag = empty_config();
    frag.assert_spec = Some(Assert {
        exit_code: None,
        golden: Some(vec![Golden {
            file: String::from("{{name}}.{{extension}}.stdout"),
            equal: Some(true),
            match_rules: None,
            value_rules: None,
            custom: None,
        }]),
    });
    let tree = DirNode {
        path: String::from("demo"),
        name: String::from("demo"),
        fragment: Some((frag, String::from("demo/__all__.toml"))),
        files: vec![leaf("a.sh")],
        subdirs: vec![],
    };
    let entries = walk(FullConfig::new(&args), tree, &args).unwrap();
    let (_, config) = &entries[0];
    let aspec = &config.assert_spec.inner;
    assert_eq!(aspec.golden.as_ref().unwrap()[0].file, "a.sh.stdout");
    let cfg = AssertConfig { epsilon: config.epsilon.inner };
    let captured = b"ok\n".to_vec();
    let mk_inputs = |golden: &[u8]| {
        vec![Ok(vec![GoldenInput {
            file_name: String::from("a.sh.stdout"),
            content: captured.clone(),
            golden: Some(golden.to_vec()),
        }])]
    };
    // recorded "ok\n": zero failures, the test passes
    let (errs, _) = aspec.check(&cfg, Some(0), &mk_inputs(b"ok\n"));
    assert_eq!(errs.len(), 0);
    let state = finish_state(errs, true, "demo/a.sh", "tmp/a.report", None, 12);
    assert!(matches!(
        state,
        cargo_regression::regression::State::Passed(Some(12))
    ));
    // recorded "fail\n": exactly one Eq failure referencing the artifact
    let (errs, _) = aspec.check(&cfg, Some(0), &mk_inputs(b"fail\n"));
    assert_eq!(errs.len(), 1);
    assert!(matches!(
        &errs[0],
        cargo_regression::assert_rules::AssertError::Eq { file_name, .. } if file_name == "a.sh.stdout"
    ));
    let state = finish_state(errs, true, "demo/a.sh", "tmp/a.report", None, 30);
    assert!(matches!(
        state,
        cargo_regression::regression::State::Failed(Some((_, 30)))
    ));
}

#[test]
fn args_filtering_and_finalize() {
    let args = Args::new("demo")
        .extensions(vec![String::from("sh")])
        .finalize(
            String::from("/abs"),
            vec![String::from("/abs/a.sh")],
            vec![String::from("/abs/b.sh")],
        )
        .unwrap();
    assert!(!args.filtered(&String::from("/abs/a.sh")));
    assert!(args.filtered(&String::from("/abs/b.sh")));
    assert!(args.filtered(&String::from("/abs/c.sh")));
    let bad = Args::new("demo").extensions(vec![String::from("toml")]);
    assert!(matches!(
        bad.finalize(String::from("/abs"), vec![], vec![]),
        Err(BuildError::InputExtToml(_))
    ));
}

#[test]
fn epsilon_default_is_tiny() {
    let args = base_args();
    let c = FullConfig::new(&args);
    assert_eq!(c.epsilon.inner, Dec { neg: false, mant: 1, exp: -10 });
}

#[test]
fn evaluation_is_idempotent_on_resolved_configs() {
    // evaluating an already-evaluated configuration changes nothing
    let args = base_args();
    let mut frag = empty_config();
    frag.envs = Some(vec![(String::from("greet"), String::from("hi {{name}}"))]);
    let tree = DirNode {
        path: String::from("demo"),
        name: String::from("demo"),
        fragment: Some((frag, String::from("demo/__all__.toml"))),
        files: vec![leaf("a.sh")],
        subdirs: vec![],
    };
    let entries = walk(FullConfig::new(&args), tree, &args).unwrap();
    let once = &entries[0].1;
    let twice = once.duplicate().eval("demo/a.sh", &args).unwrap();
    assert_eq!(once.cmd.inner, twice.cmd.inner);
    assert_eq!(once.args.inner, twice.args.inner);
    assert_eq!(once.envs.inner, twice.envs.inner);
    assert_eq!(once.extern_files.inner, twice.extern_files.inner);
    assert_eq!(once.name, twice.name);
    assert_eq!(once.extension, twice.extension);
}
