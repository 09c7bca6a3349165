//! The per-test staging and execution plan: the isolated working
//! directory, the links that populate it, the command to run, and the
//! hooks around it. The surrounding application performs the filesystem
//! work and process spawns that the plans describe.

use crate::config::{str_views, FullConfig};
use crate::strutil::{path_join, str_starts_with};
use vstd::prelude::*;

verus! {

/// The path of a test relative to the run's root: the root prefix is
/// stripped (with its separator), any other path is kept whole.
pub open spec fn rel_path(rootdir: Seq<char>, path: Seq<char>) -> Seq<char> {
    if path.len() > rootdir.len() && path.take(rootdir.len() as int) == rootdir {
        if rootdir.len() > 0 && rootdir.last() == '/' {
            path.skip(rootdir.len() as int)
        } else {
            path.skip(rootdir.len() as int + 1)
        }
    } else {
        path
    }
}

/// The isolated working directory of one test: the run's working
/// directory joined with the test's path relative to the root.
pub fn test_workdir(workdir: &str, rootdir: &str, path: &str) -> (r: String)
    ensures
        r@ == workdir@ + seq!['/'] + rel_path(rootdir@, path@),
{
    let plen = path.unicode_len();
    let rlen = rootdir.unicode_len();
    if plen > rlen && str_starts_with(path, rootdir) {
        let trailing = rlen > 0 && rootdir.get_char(rlen - 1) == '/';
        let rel = if trailing {
            path.substring_char(rlen, plen)
        } else {
            path.substring_char(rlen + 1, plen)
        };
        path_join(workdir, rel)
    } else {
        path_join(workdir, path)
    }
}

/// One link to lay into the working directory.
pub struct LinkSpec {
    pub original: String,
    pub link: String,
}

/// The links of the golden directory part of a staging plan.
pub open spec fn golden_links(rootdir: Seq<char>, workdir: Seq<char>, golden_exists: bool) -> Seq<
    (Seq<char>, Seq<char>),
> {
    if golden_exists {
        seq![
            (
                rootdir + seq!['/'] + "__golden__"@,
                workdir + seq!['/'] + "__golden__"@,
            ),
        ]
    } else {
        Seq::empty()
    }
}

/// The links of the extern files that exist on disk.
pub open spec fn extern_links(
    rootdir: Seq<char>,
    workdir: Seq<char>,
    files: Seq<Seq<char>>,
    exists_flags: Seq<bool>,
) -> Seq<(Seq<char>, Seq<char>)>
    decreases files.len(),
{
    if files.len() == 0 || files.len() != exists_flags.len() {
        Seq::empty()
    } else {
        extern_links(rootdir, workdir, files.drop_last(), exists_flags.drop_last()) + if
            exists_flags.last() {
            seq![
                (rootdir + seq!['/'] + files.last(), workdir + seq!['/'] + files.last()),
            ]
        } else {
            Seq::empty()
        }
    }
}

/// The links of every sibling whose name starts with the test's base
/// name: this is how input fixtures reach the working directory.
pub open spec fn sibling_links(
    rootdir: Seq<char>,
    workdir: Seq<char>,
    name: Seq<char>,
    entries: Seq<Seq<char>>,
) -> Seq<(Seq<char>, Seq<char>)>
    decreases entries.len(),
{
    if entries.len() == 0 {
        Seq::empty()
    } else {
        sibling_links(rootdir, workdir, name, entries.drop_last()) + if entries.last().len()
            >= name.len() && entries.last().take(name.len() as int) == name {
            seq![
                (
                    rootdir + seq!['/'] + entries.last(),
                    workdir + seq!['/'] + entries.last(),
                ),
            ]
        } else {
            Seq::empty()
        }
    }
}

/// The whole staging plan: the golden directory, then the extern files
/// that exist, then every sibling sharing the test's base name.
pub open spec fn staging_plan_spec(
    rootdir: Seq<char>,
    workdir: Seq<char>,
    name: Seq<char>,
    ext_files: Seq<Seq<char>>,
    ext_exists: Seq<bool>,
    entries: Seq<Seq<char>>,
    golden_exists: bool,
) -> Seq<(Seq<char>, Seq<char>)> {
    golden_links(rootdir, workdir, golden_exists) + extern_links(
        rootdir,
        workdir,
        ext_files,
        ext_exists,
    ) + sibling_links(rootdir, workdir, name, entries)
}

/// Computes the links that stage one test's working directory. The
/// application reports which extern files and whether the golden
/// directory exist, and lists the source directory's entries.
pub fn staging_plan(
    rootdir: &str,
    workdir: &str,
    name: &str,
    ext_files: &Vec<String>,
    ext_exists: &Vec<bool>,
    entries: &Vec<String>,
    golden_exists: bool,
) -> (r: Vec<LinkSpec>)
    requires
        ext_files@.len() == ext_exists@.len(),
    ensures
        ({
            let plan = staging_plan_spec(
                rootdir@,
                workdir@,
                name@,
                str_views(ext_files@),
                ext_exists@,
                str_views(entries@),
                golden_exists,
            );
            &&& r@.len() == plan.len()
            &&& forall|i: int|
                0 <= i < r@.len() ==> (#[trigger] r@[i]).original@ == plan[i].0 && r@[i].link@
                    == plan[i].1
        }),
{
    let mut out: Vec<LinkSpec> = Vec::new();
    if golden_exists {
        let g = "__golden__";
        out.push(LinkSpec { original: path_join(rootdir, g), link: path_join(workdir, g) });
    }
    let ghost gl = golden_links(rootdir@, workdir@, golden_exists);
    let ne = ext_files.len();
    let mut i: usize = 0;
    proof {
        assert(extern_links(
            rootdir@,
            workdir@,
            str_views(ext_files@).take(0),
            ext_exists@.take(0),
        ) =~= Seq::<(Seq<char>, Seq<char>)>::empty());
    }
    while i < ne
        invariant
            i <= ne == ext_files@.len() == ext_exists@.len(),
            gl == golden_links(rootdir@, workdir@, golden_exists),
            out@.len() == gl.len() + extern_links(
                rootdir@,
                workdir@,
                str_views(ext_files@).take(i as int),
                ext_exists@.take(i as int),
            ).len(),
            forall|k: int|
                0 <= k < out@.len() ==> (#[trigger] out@[k]).original@ == (gl + extern_links(
                    rootdir@,
                    workdir@,
                    str_views(ext_files@).take(i as int),
                    ext_exists@.take(i as int),
                ))[k].0 && out@[k].link@ == (gl + extern_links(
                    rootdir@,
                    workdir@,
                    str_views(ext_files@).take(i as int),
                    ext_exists@.take(i as int),
                ))[k].1,
        decreases ne - i,
    {
        proof {
            assert(str_views(ext_files@).take(i + 1).drop_last() =~= str_views(
                ext_files@,
            ).take(i as int));
            assert(ext_exists@.take(i + 1).drop_last() =~= ext_exists@.take(i as int));
            assert(str_views(ext_files@).take(i + 1).last() == ext_files@[i as int]@);
            assert(ext_exists@.take(i + 1).last() == ext_exists@[i as int]);
        }
        if ext_exists[i] {
            out.push(
                LinkSpec {
                    original: path_join(rootdir, ext_files[i].as_str()),
                    link: path_join(workdir, ext_files[i].as_str()),
                },
            );
        }
        i += 1;
    }
    proof {
        assert(str_views(ext_files@).take(ne as int) =~= str_views(ext_files@));
        assert(ext_exists@.take(ne as int) =~= ext_exists@);
    }
    let ghost el = extern_links(rootdir@, workdir@, str_views(ext_files@), ext_exists@);
    let nn = entries.len();
    let mut j: usize = 0;
    proof {
        assert(sibling_links(rootdir@, workdir@, name@, str_views(entries@).take(0))
            =~= Seq::<(Seq<char>, Seq<char>)>::empty());
    }
    while j < nn
        invariant
            j <= nn == entries@.len(),
            gl == golden_links(rootdir@, workdir@, golden_exists),
            el == extern_links(rootdir@, workdir@, str_views(ext_files@), ext_exists@),
            out@.len() == gl.len() + el.len() + sibling_links(
                rootdir@,
                workdir@,
                name@,
                str_views(entries@).take(j as int),
            ).len(),
            forall|k: int|
                0 <= k < out@.len() ==> (#[trigger] out@[k]).original@ == (gl + el
                    + sibling_links(
                    rootdir@,
                    workdir@,
                    name@,
                    str_views(entries@).take(j as int),
                ))[k].0 && out@[k].link@ == (gl + el + sibling_links(
                    rootdir@,
                    workdir@,
                    name@,
                    str_views(entries@).take(j as int),
                ))[k].1,
        decreases nn - j,
    {
        proof {
            assert(str_views(entries@).take(j + 1).drop_last() =~= str_views(entries@).take(
                j as int,
            ));
            assert(str_views(entries@).take(j + 1).last() == entries@[j as int]@);
        }
        if str_starts_with(entries[j].as_str(), name) {
            out.push(
                LinkSpec {
                    original: path_join(rootdir, entries[j].as_str()),
                    link: path_join(workdir, entries[j].as_str()),
                },
            );
        }
        j += 1;
    }
    proof {
        assert(str_views(entries@).take(nn as int) =~= str_views(entries@));
    }
    out
}

/// One command to spawn: the program, its arguments, its environment and
/// its working directory.
pub struct CommandPlan {
    pub cmd: String,
    pub args: Vec<String>,
    pub envs: Vec<(String, String)>,
    pub workdir: String,
}

impl FullConfig {
    /// The plan of the test's own command, run inside its working
    /// directory with the resolved arguments and environment.
    pub fn command_plan(&self, workdir: &str) -> (r: CommandPlan)
        ensures
            r.cmd@ == self.model().cmd,
            str_views(r.args@) == self.model().args,
            crate::config::env_views(r.envs@) == self.model().envs,
            r.workdir@ == workdir@,
    {
        CommandPlan {
            cmd: self.cmd.inner.clone(),
            args: crate::config::copy_strings(&self.args.inner),
            envs: crate::config::copy_envs(&self.envs.inner),
            workdir: String::from_str(workdir),
        }
    }

    /// The plans of the pre- or post-processing hooks: each hook's
    /// command and arguments, the test's environment, and the hook's own
    /// working directory where it names one.
    pub fn hook_plans(&self, workdir: &str, pre: bool) -> (r: Vec<CommandPlan>)
        ensures
            ({
                let hooks = if pre {
                    self.model().preprocess
                } else {
                    self.model().postprocess
                };
                &&& r@.len() == hooks.len()
                &&& forall|i: int|
                    0 <= i < r@.len() ==> {
                        let h = hooks[i];
                        &&& (#[trigger] r@[i]).cmd@ == h.cmd
                        &&& str_views(r@[i].args@) == (match h.args {
                            Some(a) => a,
                            None => Seq::<Seq<char>>::empty(),
                        })
                        &&& r@[i].workdir@ == (match h.workdir {
                            Some(w) => w,
                            None => workdir@,
                        })
                        &&& crate::config::env_views(r@[i].envs@) == self.model().envs
                    }
            }),
    {
        let hooks = if pre {
            &self.preprocess.inner
        } else {
            &self.postprocess.inner
        };
        let ghost hmodels = if pre {
            self.model().preprocess
        } else {
            self.model().postprocess
        };
        let n = hooks.len();
        let mut out: Vec<CommandPlan> = Vec::new();
        let mut i: usize = 0;
        while i < n
            invariant
                i <= n == hooks@.len(),
                hmodels == crate::config::pp_models(hooks@),
                out@.len() == i,
                forall|k: int|
                    0 <= k < i ==> {
                        let h = hmodels[k];
                        &&& (#[trigger] out@[k]).cmd@ == h.cmd
                        &&& str_views(out@[k].args@) == (match h.args {
                            Some(a) => a,
                            None => Seq::<Seq<char>>::empty(),
                        })
                        &&& out@[k].workdir@ == (match h.workdir {
                            Some(w) => w,
                            None => workdir@,
                        })
                        &&& crate::config::env_views(out@[k].envs@) == crate::config::env_views(
                            self.envs.inner@,
                        )
                    },
            decreases n - i,
        {
            let h = &hooks[i];
            let hargs: Vec<String> = match &h.args {
                Some(a) => crate::config::copy_strings(a),
                None => Vec::new(),
            };
            let hwd: String = match &h.workdir {
                Some(w) => w.clone(),
                None => String::from_str(workdir),
            };
            out.push(
                CommandPlan {
                    cmd: h.cmd.clone(),
                    args: hargs,
                    envs: crate::config::copy_envs(&self.envs.inner),
                    workdir: hwd,
                },
            );
            proof {
                assert(crate::config::pp_models(hooks@)[i as int] == crate::config::pp_model(
                    hooks@[i as int],
                ));
                assert(str_views(out@[i as int].args@) =~= (match crate::config::pp_model(
                    hooks@[i as int],
                ).args {
                    Some(a) => a,
                    None => Seq::<Seq<char>>::empty(),
                }));
            }
            i += 1;
        }
        out
    }

    /// The path of the persisted failure report of this test.
    pub fn report_path(&self, workdir: &str) -> (r: String)
        ensures
            r@ == workdir@ + seq!['/'] + self.name@ + ".report"@,
    {
        let mut s = path_join(workdir, self.name.as_str());
        s.append(".report");
        s
    }
}

} // verus!
