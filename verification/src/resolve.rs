//! The tree resolver: walks the directory tree handed in by the
//! surrounding application, merges configuration fragments top-down —
//! a directory's fragment is folded in before its files and
//! subdirectories are resolved against it — and yields one fully
//! evaluated configuration per test file, or every build error found
//! anywhere in the tree. Sibling subtrees are independent — the run loop
//! may resolve them concurrently — and this resolver visits them in
//! order, which yields the same entries.

use crate::args::{spec_filtered, Args};
use crate::config::{
    check_ok, claims_toml, eval_model, filtered_model, merge_model, str_views, CfgModel, Config,
    FullConfig,
};
use crate::regression::BuildError;
use crate::strutil::path_join;
use vstd::prelude::*;

verus! {

broadcast use vstd::std_specs::vec::axiom_vec_decreases_to_view, vstd::seq::axiom_seq_index_decreases;

/// One file of a directory: its plain name, the canonical path the
/// application resolved for the include and exclude filters, and its own
/// fragment (with the fragment file's path) where one exists.
pub struct FileEntry {
    pub name: String,
    pub canon: String,
    pub fragment: Option<(Config, String)>,
}

/// One directory of the tree: its path from the root, its name, its
/// directory-wide fragment where one exists, its files and its
/// subdirectories.
pub struct DirNode {
    pub path: String,
    pub name: String,
    pub fragment: Option<(Config, String)>,
    pub files: Vec<FileEntry>,
    pub subdirs: Vec<DirNode>,
}

/// A fragment is acceptable unless it claims the configuration
/// language's own extension.
pub open spec fn frag_ok(f: Config) -> bool {
    !(f.extensions matches Some(v) && claims_toml(str_views(v@)))
}

/// The inherited configuration after a directory's own fragment.
pub open spec fn dir_model(m: CfgModel, node: DirNode) -> CfgModel {
    match node.fragment {
        Some((c, p)) => merge_model(m, c),
        None => m,
    }
}

pub open spec fn dir_frag_ok(node: DirNode) -> bool {
    match node.fragment {
        Some((c, p)) => frag_ok(c),
        None => true,
    }
}

/// Whether a file's extension matches the inherited configuration.
pub open spec fn file_matches(m: CfgModel, fullpath: Seq<char>) -> bool {
    crate::strutil::contains_char(crate::strutil::after_last(fullpath, '/'), '.') && exists|i: int|
        0 <= i < m.extensions.len() && m.extensions[i] == crate::strutil::after_last(
            crate::strutil::after_last(fullpath, '/'),
            '.',
        )
}

/// The configuration a file resolves against: the inherited one, with the
/// file's own fragment merged on top where one exists and is acceptable.
pub open spec fn file_model(m: CfgModel, fe: FileEntry) -> CfgModel {
    match fe.fragment {
        Some((c, p)) => merge_model(m, c),
        None => m,
    }
}

pub open spec fn file_frag_ok(fe: FileEntry) -> bool {
    match fe.fragment {
        Some((c, p)) => frag_ok(c),
        None => true,
    }
}

/// The entries one file contributes: nothing when its extension does not
/// match or its resolution fails; a filtered-out stand-in when the run's
/// filters leave it out; else its fully evaluated configuration.
pub open spec fn file_part(m: CfgModel, dirpath: Seq<char>, fe: FileEntry, args: Args) -> Seq<
    (Seq<char>, CfgModel),
> {
    let fullpath = dirpath + seq!['/'] + fe.name@;
    if !file_matches(m, fullpath) {
        Seq::empty()
    } else if spec_filtered(args.included_set@, args.exclude_set@, fe.canon@) {
        seq![(fullpath, filtered_model())]
    } else if !file_frag_ok(fe) {
        Seq::empty()
    } else if !check_ok(file_model(m, fe), args.permits) {
        Seq::empty()
    } else {
        seq![(fullpath, eval_model(file_model(m, fe), fullpath, args.rootdir_abs@))]
    }
}

/// A file resolves without error when it does not match, is filtered out,
/// or its fragment and checks pass.
pub open spec fn file_ok(m: CfgModel, dirpath: Seq<char>, fe: FileEntry, args: Args) -> bool {
    let fullpath = dirpath + seq!['/'] + fe.name@;
    !file_matches(m, fullpath) || spec_filtered(args.included_set@, args.exclude_set@, fe.canon@)
        || (file_frag_ok(fe) && check_ok(file_model(m, fe), args.permits))
}

pub open spec fn files_part(m: CfgModel, dirpath: Seq<char>, files: Seq<FileEntry>, args: Args) -> Seq<
    (Seq<char>, CfgModel),
>
    decreases files.len(),
{
    if files.len() == 0 {
        Seq::empty()
    } else {
        files_part(m, dirpath, files.drop_last(), args) + file_part(m, dirpath, files.last(), args)
    }
}

pub open spec fn files_ok(m: CfgModel, dirpath: Seq<char>, files: Seq<FileEntry>, args: Args) -> bool {
    forall|i: int| 0 <= i < files.len() ==> file_ok(m, dirpath, #[trigger] files[i], args)
}

/// The entries of a whole directory: the directory's own fragment folded
/// in first, then its files, then its subdirectories in order; a
/// subdirectory bearing the golden-artifacts name is skipped.
pub open spec fn walk_entries(m: CfgModel, node: DirNode, args: Args) -> Seq<(Seq<char>, CfgModel)>
    decreases node, 1int,
{
    let dm = dir_model(m, node);
    files_part(dm, node.path@, node.files@, args) + subdirs_part(dm, node.subdirs@, args)
}

pub open spec fn subdirs_part(m: CfgModel, subs: Seq<DirNode>, args: Args) -> Seq<
    (Seq<char>, CfgModel),
>
    decreases subs, 0int,
{
    if subs.len() == 0 {
        Seq::empty()
    } else {
        subdirs_part(m, subs.drop_last(), args) + if subs.last().name@ == "__golden__"@ {
            Seq::empty()
        } else {
            walk_entries(m, subs.last(), args)
        }
    }
}

/// The whole subtree resolves without error.
pub open spec fn walk_ok(m: CfgModel, node: DirNode, args: Args) -> bool
    decreases node, 1int,
{
    dir_frag_ok(node) && files_ok(dir_model(m, node), node.path@, node.files@, args)
        && subdirs_ok(dir_model(m, node), node.subdirs@, args)
}

pub open spec fn subdirs_ok(m: CfgModel, subs: Seq<DirNode>, args: Args) -> bool
    decreases subs, 0int,
{
    if subs.len() == 0 {
        true
    } else {
        subdirs_ok(m, subs.drop_last(), args) && (subs.last().name@ == "__golden__"@ || walk_ok(
            m,
            subs.last(),
            args,
        ))
    }
}

/// How many build errors the files of one directory yield: one per
/// failing file.
pub open spec fn files_errs_n(m: CfgModel, dirpath: Seq<char>, files: Seq<FileEntry>, args: Args) -> int
    decreases files.len(),
{
    if files.len() == 0 {
        0
    } else {
        files_errs_n(m, dirpath, files.drop_last(), args) + if file_ok(
            m,
            dirpath,
            files.last(),
            args,
        ) {
            0int
        } else {
            1int
        }
    }
}

/// How many build errors a whole subtree yields: a failing directory
/// fragment poisons its subtree with one error; otherwise every failing
/// file and every non-golden subtree contributes its own.
pub open spec fn walk_errs_n(m: CfgModel, node: DirNode, args: Args) -> int
    decreases node, 1int,
{
    if !dir_frag_ok(node) {
        1
    } else {
        files_errs_n(dir_model(m, node), node.path@, node.files@, args) + subdirs_errs_n(
            dir_model(m, node),
            node.subdirs@,
            args,
        )
    }
}

pub open spec fn subdirs_errs_n(m: CfgModel, subs: Seq<DirNode>, args: Args) -> int
    decreases subs, 0int,
{
    if subs.len() == 0 {
        0
    } else {
        subdirs_errs_n(m, subs.drop_last(), args) + if subs.last().name@ == "__golden__"@ {
            0int
        } else {
            walk_errs_n(m, subs.last(), args)
        }
    }
}

/// The directory fragments present along a descent, outermost first.
pub open spec fn spine_frags(nodes: Seq<DirNode>) -> Seq<Config>
    decreases nodes.len(),
{
    if nodes.len() == 0 {
        Seq::<Config>::empty()
    } else {
        (match nodes.first().fragment {
            Some((c, p)) => seq![c],
            None => Seq::<Config>::empty(),
        }) + spine_frags(nodes.drop_first())
    }
}

/// The configuration inherited at the bottom of a descent: each
/// directory's fragment folded in on the way down.
pub open spec fn spine_model(m: CfgModel, nodes: Seq<DirNode>) -> CfgModel
    decreases nodes.len(),
{
    if nodes.len() == 0 {
        m
    } else {
        spine_model(dir_model(m, nodes.first()), nodes.drop_first())
    }
}

proof fn lemma_resolve_chain_front(m: CfgModel, c: Config, rest: Seq<Config>)
    ensures
        crate::config::resolve_chain(m, seq![c] + rest) == crate::config::resolve_chain(
            crate::config::merge_model(m, c),
            rest,
        ),
    decreases rest.len(),
{
    if rest.len() == 0 {
        assert(seq![c] + rest =~= seq![c]);
        assert(seq![c].drop_last() =~= Seq::<Config>::empty());
        assert(seq![c].last() == c);
        assert(crate::config::resolve_chain(m, Seq::<Config>::empty())
            == m);
        assert(crate::config::resolve_chain(m, seq![c]) == crate::config::merge_model(m, c));
        assert(crate::config::resolve_chain(crate::config::merge_model(m, c), rest)
            == crate::config::merge_model(m, c));
    } else {
        assert((seq![c] + rest).drop_last() =~= seq![c] + rest.drop_last());
        assert((seq![c] + rest).last() == rest.last());
        assert((seq![c] + rest).len() > 0);
        lemma_resolve_chain_front(m, c, rest.drop_last());
        assert(crate::config::resolve_chain(m, seq![c] + rest) == crate::config::merge_model(
            crate::config::resolve_chain(m, (seq![c] + rest).drop_last()),
            rest.last(),
        ));
        assert(crate::config::resolve_chain(crate::config::merge_model(m, c), rest)
            == crate::config::merge_model(
            crate::config::resolve_chain(crate::config::merge_model(m, c), rest.drop_last()),
            rest.last(),
        ));
    }
}

/// At any depth, the inherited configuration equals the top-down fold of
/// the ancestor directory fragments: the root defaults, overridden by
/// each fragment in root-to-leaf order, fields under `extend` appended.
/// Together with `walk`'s contract — every entry's configuration is
/// `eval_model` of `file_model` over this inherited result — this is the
/// resolution-as-fold reading of the tree walk, at arbitrary depth.
pub proof fn lemma_spine_is_fold(m: CfgModel, nodes: Seq<DirNode>)
    ensures
        spine_model(m, nodes) == crate::config::resolve_chain(m, spine_frags(nodes)),
    decreases nodes.len(),
{
    if nodes.len() == 0 {
        assert(spine_frags(nodes) =~= Seq::<Config>::empty());
    } else {
        lemma_spine_is_fold(dir_model(m, nodes.first()), nodes.drop_first());
        match nodes.first().fragment {
            Some((c, p)) => {
                lemma_resolve_chain_front(m, c, spine_frags(nodes.drop_first()));
            },
            None => {
                assert(Seq::<Config>::empty() + spine_frags(nodes.drop_first()) =~= spine_frags(
                    nodes.drop_first(),
                ));
            },
        }
    }
}

/// A file's resolved model extends the fold by the file's own fragment:
/// the whole chain is the ancestors' fragments and then the test's own.
pub proof fn lemma_file_chain(m: CfgModel, nodes: Seq<DirNode>, fe: FileEntry)
    ensures
        file_model(spine_model(m, nodes), fe) == crate::config::resolve_chain(
            m,
            spine_frags(nodes) + (match fe.fragment {
                Some((c, p)) => seq![c],
                None => Seq::<Config>::empty(),
            }),
        ),
{
    lemma_spine_is_fold(m, nodes);
    match fe.fragment {
        Some((c, p)) => {
            assert((spine_frags(nodes) + seq![c]).drop_last() =~= spine_frags(nodes));
            assert((spine_frags(nodes) + seq![c]).last() == c);
        },
        None => {
            assert(spine_frags(nodes) + Seq::<Config>::empty() =~= spine_frags(nodes));
        },
    }
}

/// A subtree that resolves without error yields no build error.
pub proof fn lemma_ok_no_errs(m: CfgModel, node: DirNode, args: Args)
    requires
        walk_ok(m, node, args),
    ensures
        walk_errs_n(m, node, args) == 0,
    decreases node, 1int,
{
    lemma_files_ok_no_errs(dir_model(m, node), node.path@, node.files@, args);
    lemma_subdirs_ok_no_errs(dir_model(m, node), node.subdirs@, args);
}

proof fn lemma_files_ok_no_errs(m: CfgModel, dirpath: Seq<char>, files: Seq<FileEntry>, args: Args)
    requires
        files_ok(m, dirpath, files, args),
    ensures
        files_errs_n(m, dirpath, files, args) == 0,
    decreases files.len(),
{
    if files.len() > 0 {
        assert(forall|i: int|
            0 <= i < files.drop_last().len() ==> files.drop_last()[i] == files[i]);
        lemma_files_ok_no_errs(m, dirpath, files.drop_last(), args);
        assert(file_ok(m, dirpath, files[files.len() - 1], args));
    }
}

proof fn lemma_subdirs_ok_no_errs(m: CfgModel, subs: Seq<DirNode>, args: Args)
    requires
        subdirs_ok(m, subs, args),
    ensures
        subdirs_errs_n(m, subs, args) == 0,
    decreases subs, 0int,
{
    if subs.len() > 0 {
        lemma_subdirs_ok_no_errs(m, subs.drop_last(), args);
        if subs.last().name@ != "__golden__"@ {
            lemma_ok_no_errs(m, subs.last(), args);
        }
    }
}

/// Resolves a subtree: merges the directory's fragment, resolves each
/// matching file against it, and descends into each subdirectory with the
/// merged configuration — children always see their parent's merged
/// result. Every build error in the subtree is collected; a failing file
/// or subtree never stops its siblings, but a directory whose own
/// fragment fails poisons the whole subtree. With no error, the entries
/// are exactly the tree's resolved tests, files before subdirectories;
/// with errors, the list holds one error for every failure in the whole
/// tree, never just the first.
#[verifier::rlimit(100)]
pub fn walk(config: FullConfig, node: DirNode, args: &Args) -> (r: Result<
    Vec<(String, FullConfig)>,
    Vec<BuildError>,
>)
    requires
        config.wf(),
        frags_wf(node),
    ensures
        r is Ok == walk_ok(config.model(), node, *args),
        (r matches Ok(v) ==> {
            let entries = walk_entries(config.model(), node, *args);
            &&& v@.len() == entries.len()
            &&& forall|i: int|
                0 <= i < v@.len() ==> (#[trigger] v@[i]).0@ == entries[i].0 && v@[i].1.model()
                    == entries[i].1
        }),
        (r matches Err(es) ==> es@.len() == walk_errs_n(config.model(), node, *args) && es@.len()
            >= 1),
    decreases node,
{
    let ghost gnode = node;
    let DirNode { path, name: _, fragment, files, subdirs } = node;
    let mut cur = config;
    match fragment {
        Some((c, p)) => {
            match cur.update(c, p.as_str(), args.debug) {
                Ok(c2) => {
                    cur = c2;
                },
                Err(e) => {
                    let mut es: Vec<BuildError> = Vec::new();
                    es.push(e);
                    return Err(es);
                },
            }
        },
        None => {},
    }
    let ghost dm = cur.model();
    proof {
        assert(dm == dir_model(config.model(), gnode));
    }
    let mut entries: Vec<(String, FullConfig)> = Vec::new();
    let mut errs: Vec<BuildError> = Vec::new();
    // files of this directory
    let mut files = files;
    let nf = files.len();
    let ghost allf = gnode.files@;
    let mut i: usize = 0;
    proof {
        assert(allf.take(0) =~= Seq::<FileEntry>::empty());
    }
    while i < nf
        invariant
            gnode == node,
            allf == gnode.files@,
            dm == dir_model(config.model(), gnode),
            i <= nf == allf.len(),
            files@ =~= allf.skip(i as int),
            cur.wf(),
            cur.model() == dm,
            path@ == gnode.path@,
            frags_wf(gnode),
            entries@.len() == files_part(dm, gnode.path@, allf.take(i as int), *args).len(),
            forall|k: int|
                0 <= k < entries@.len() ==> (#[trigger] entries@[k]).0@ == files_part(
                    dm,
                    gnode.path@,
                    allf.take(i as int),
                    *args,
                )[k].0 && entries@[k].1.model() == files_part(
                    dm,
                    gnode.path@,
                    allf.take(i as int),
                    *args,
                )[k].1,
            errs@.len() == files_errs_n(dm, gnode.path@, allf.take(i as int), *args),
            (errs@.len() == 0) == files_ok(dm, gnode.path@, allf.take(i as int), *args),
        decreases nf - i,
    {
        proof {
            assert(allf.take(i + 1).drop_last() =~= allf.take(i as int));
            assert(allf.take(i + 1).last() == allf[i as int]);
            assert(files@[0] == allf[i as int]);
        }
        let fe = files.remove(0);
        let ghost gfe = allf[i as int];
        let FileEntry { name: fname, canon, fragment: ffrag } = fe;
        let fullpath = path_join(path.as_str(), fname.as_str());
        let ghost gfp = fullpath@;
        proof {
            assert(gfp == gnode.path@ + seq!['/'] + gfe.name@);
        }
        let ghost fpart = file_part(dm, gnode.path@, gfe, *args);
        let ghost fok = file_ok(dm, gnode.path@, gfe, *args);
        let matched = cur.match_extension(fullpath.as_str());
        proof {
            // the executable extension test and the model-level one agree
            assert(matched == file_matches(dm, gfp)) by {
                let e = crate::strutil::after_last(crate::strutil::after_last(gfp, '/'), '.');
                if crate::args::str_list_has(cur.extensions.inner@, e) {
                    let j = choose|j: int|
                        0 <= j < cur.extensions.inner@.len() && cur.extensions.inner@[j]@ == e;
                    assert(dm.extensions[j] == e);
                }
                if file_matches(dm, gfp) {
                    let j = choose|j: int|
                        0 <= j < dm.extensions.len() && dm.extensions[j] == e;
                    assert(cur.extensions.inner@[j]@ == e);
                }
            }
        }
        if matched {
            if args.filtered(&canon) {
                entries.push((fullpath, FullConfig::new_filtered()));
                proof {
                    assert(fpart =~= seq![(gfp, filtered_model())]);
                    assert(fok);
                }
            } else {
                let base = cur.duplicate();
                let merged = match ffrag {
                    Some((c, p)) => {
                        proof {
                            assert((gnode.files@[i as int]).fragment matches Some((c2, p2))
                                ==> c2.wf());
                            assert(gnode.files@[i as int] == gfe);
                        }
                        match base.update(c, p.as_str(), args.debug) {
                            Ok(c2) => Some(c2),
                            Err(e) => {
                                errs.push(e);
                                proof {
                                    assert(!file_frag_ok(gfe));
                                    assert(fpart =~= Seq::<(Seq<char>, CfgModel)>::empty());
                                    assert(!fok);
                                }
                                None
                            },
                        }
                    },
                    None => Some(base),
                };
                match merged {
                    Some(c2) => {
                        proof {
                            assert(c2.model() == file_model(dm, gfe));
                            assert(file_frag_ok(gfe));
                        }
                        match c2.eval(fullpath.as_str(), args) {
                            Ok(c3) => {
                                proof {
                                    assert(c3.model() == eval_model(
                                        file_model(dm, gfe),
                                        gfp,
                                        args.rootdir_abs@,
                                    ));
                                    assert(fpart =~= seq![(gfp, c3.model())]);
                                    assert(fok);
                                }
                                entries.push((fullpath, c3));
                            },
                            Err(e) => {
                                errs.push(e);
                                proof {
                                    assert(!check_ok(file_model(dm, gfe), args.permits));
                                    assert(fpart =~= Seq::<(Seq<char>, CfgModel)>::empty());
                                    assert(!fok);
                                }
                            },
                        }
                    },
                    None => {},
                }
            }
        } else {
            proof {
                assert(fpart =~= Seq::<(Seq<char>, CfgModel)>::empty());
                assert(fok);
            }
        }
        proof {
            assert(files_part(dm, gnode.path@, allf.take(i + 1), *args) =~= files_part(
                dm,
                gnode.path@,
                allf.take(i as int),
                *args,
            ) + fpart);
            assert(files_errs_n(dm, gnode.path@, allf.take(i + 1), *args) == files_errs_n(
                dm,
                gnode.path@,
                allf.take(i as int),
                *args,
            ) + if fok {
                0int
            } else {
                1int
            });
        }
        i += 1;
        proof {
            assert(files@ =~= allf.skip(i as int));
        }
    }
    proof {
        assert(allf.take(nf as int) =~= allf);
    }
    // subdirectories, resolved against this directory's merged result
    let mut subdirs = subdirs;
    let ns = subdirs.len();
    let ghost alls = gnode.subdirs@;
    let mut j: usize = 0;
    let ghost base_entries = entries@;
    let ghost had_file_errs = errs@.len() > 0;
    proof {
        assert(alls.take(0) =~= Seq::<DirNode>::empty());
    }
    while j < ns
        invariant
            gnode == node,
            alls == gnode.subdirs@,
            dm == dir_model(config.model(), gnode),
            j <= ns == alls.len(),
            subdirs@ =~= alls.skip(j as int),
            cur.wf(),
            cur.model() == dm,
            frags_wf(gnode),
            alls == gnode.subdirs@,
            base_entries.len() == files_part(dm, gnode.path@, gnode.files@, *args).len(),
            errs@.len() == 0 ==> entries@.len() == base_entries.len() + subdirs_part(
                dm,
                alls.take(j as int),
                *args,
            ).len(),
            forall|k: int|
                0 <= k < base_entries.len() && k < entries@.len() ==> (#[trigger] entries@[k])
                    == base_entries[k],
            base_entries.len() <= entries@.len(),
            errs@.len() == 0 ==> forall|k: int|
                base_entries.len() <= k < entries@.len() ==> (#[trigger] entries@[k]).0@
                    == subdirs_part(dm, alls.take(j as int), *args)[k - base_entries.len()].0
                    && entries@[k].1.model() == subdirs_part(
                    dm,
                    alls.take(j as int),
                    *args,
                )[k - base_entries.len()].1,
            forall|k: int|
                0 <= k < base_entries.len() ==> (#[trigger] base_entries[k]).0@ == files_part(
                    dm,
                    gnode.path@,
                    gnode.files@,
                    *args,
                )[k].0 && base_entries[k].1.model() == files_part(
                    dm,
                    gnode.path@,
                    gnode.files@,
                    *args,
                )[k].1,
            errs@.len() == files_errs_n(dm, gnode.path@, gnode.files@, *args) + subdirs_errs_n(
                dm,
                alls.take(j as int),
                *args,
            ),
            (errs@.len() == 0) == (!had_file_errs && subdirs_ok(dm, alls.take(j as int), *args)),
            had_file_errs == !files_ok(dm, gnode.path@, gnode.files@, *args),
        decreases ns - j,
    {
        proof {
            assert(alls.take(j + 1).drop_last() =~= alls.take(j as int));
            assert(alls.take(j + 1).last() == alls[j as int]);
            assert(subdirs@[0] == alls[j as int]);
        }
        let d = subdirs.remove(0);
        let ghost gd = alls[j as int];
        let is_golden = {
            let g = String::from_str(crate::regression::golden_dir_name());
            d.name == g
        };
        proof {
            reveal_strlit("__golden__");
            assert(is_golden == (gd.name@ == "__golden__"@));
        }
        if !is_golden {
            let sub = cur.duplicate();
            proof {
                assert(frags_wf(alls[j as int])) by {
                    assert(subfrags_wf(gnode.subdirs@));
                }
                assert(decreases_to!(gnode => gnode.subdirs));
                assert(decreases_to!(gnode.subdirs => gnode.subdirs@[j as int]));
            }
            match walk(sub, d, args) {
                Ok(mut v) => {
                    let ghost prev = entries@;
                    let ghost sube = walk_entries(dm, gd, *args);
                    entries.append(&mut v);
                    proof {
                        assert(forall|k: int|
                            0 <= k < prev.len() ==> (#[trigger] entries@[k]) == prev[k]);
                        assert(subdirs_part(dm, alls.take(j + 1), *args) =~= subdirs_part(
                            dm,
                            alls.take(j as int),
                            *args,
                        ) + sube);
                        assert(subdirs_ok(dm, alls.take(j + 1), *args) == subdirs_ok(
                            dm,
                            alls.take(j as int),
                            *args,
                        ));
                        assert(walk_errs_n(dm, gd, *args) == 0) by {
                            lemma_ok_no_errs(dm, gd, *args);
                        }
                        assert(subdirs_errs_n(dm, alls.take(j + 1), *args) == subdirs_errs_n(
                            dm,
                            alls.take(j as int),
                            *args,
                        ));
                    }
                },
                Err(mut es) => {
                    errs.append(&mut es);
                    proof {
                        assert(subdirs_part(dm, alls.take(j + 1), *args) =~= subdirs_part(
                            dm,
                            alls.take(j as int),
                            *args,
                        ) + walk_entries(dm, gd, *args));
                        assert(!subdirs_ok(dm, alls.take(j + 1), *args));
                        assert(subdirs_errs_n(dm, alls.take(j + 1), *args) == subdirs_errs_n(
                            dm,
                            alls.take(j as int),
                            *args,
                        ) + walk_errs_n(dm, gd, *args));
                    }
                },
            }
        } else {
            proof {
                assert(subdirs_part(dm, alls.take(j + 1), *args) =~= subdirs_part(
                    dm,
                    alls.take(j as int),
                    *args,
                ));
                assert(subdirs_ok(dm, alls.take(j + 1), *args) == subdirs_ok(
                    dm,
                    alls.take(j as int),
                    *args,
                ));
                assert(subdirs_errs_n(dm, alls.take(j + 1), *args) == subdirs_errs_n(
                    dm,
                    alls.take(j as int),
                    *args,
                ));
            }
        }
        j += 1;
        proof {
            assert(subdirs@ =~= alls.skip(j as int));
        }
    }
    proof {
        assert(alls.take(ns as int) =~= alls);
    }
    if errs.len() == 0 {
        Ok(entries)
    } else {
        Err(errs)
    }
}

/// Every fragment in the subtree carries unique environment keys (the
/// application's parser guarantees it; stated so that merging preserves
/// well-formedness).
pub open spec fn frags_wf(node: DirNode) -> bool
    decreases node, 1int,
{
    &&& (node.fragment matches Some((c, p)) ==> c.wf())
    &&& (forall|i: int|
        0 <= i < node.files@.len() ==> ((#[trigger] node.files@[i]).fragment matches Some((c, p))
            ==> c.wf()))
    &&& subfrags_wf(node.subdirs@)
}

pub open spec fn subfrags_wf(subs: Seq<DirNode>) -> bool
    decreases subs, 0int,
{
    forall|i: int| 0 <= i < subs.len() ==> frags_wf(#[trigger] subs[i])
}

} // verus!
