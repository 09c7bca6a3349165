//! Run-wide settings, created once from command-line input and shared
//! read-only across the whole run.

use crate::regression::BuildError;
use vstd::prelude::*;

verus! {

/// True when the list holds a string with this content.
pub open spec fn str_list_has(s: Seq<String>, x: Seq<char>) -> bool {
    exists|i: int| 0 <= i < s.len() && s[i]@ == x
}

/// Whether a string list holds the given string.
pub fn list_contains(v: &Vec<String>, x: &String) -> (r: bool)
    ensures
        r == str_list_has(v@, x@),
{
    let n = v.len();
    let mut i: usize = 0;
    while i < n
        invariant
            i <= n == v@.len(),
            forall|j: int| 0 <= j < i ==> v@[j]@ != x@,
        decreases n - i,
    {
        if v[i] == *x {
            assert(v@[i as int]@ == x@);
            return true;
        }
        i += 1;
    }
    false
}

/// The run's settings: the root of the test tree, the working directory,
/// the concurrency budget, defaults for command and arguments, input
/// extensions, include and exclude filters, and the debug and
/// inline-error flags. Immutable once the run starts.
#[derive(Clone, Debug)]
pub struct Args {
    pub debug: bool,
    pub print_errs: bool,
    pub exe_path: String,
    pub args: Vec<String>,
    pub extensions: Vec<String>,
    pub included: Vec<String>,
    pub included_set: Vec<String>,
    pub exclude: Vec<String>,
    pub exclude_set: Vec<String>,
    pub permits: u32,
    pub workdir: String,
    pub rootdir: String,
    pub rootdir_abs: String,
}

/// A file is filtered out when the include list (if any) does not name it,
/// or the exclude list does; both lists hold canonical paths.
pub open spec fn spec_filtered(
    included_set: Seq<String>,
    exclude_set: Seq<String>,
    file: Seq<char>,
) -> bool {
    let included = included_set.len() == 0 || str_list_has(included_set, file);
    let excluded = exclude_set.len() > 0 && str_list_has(exclude_set, file);
    !included || excluded
}

impl Args {
    /// Settings for a run rooted at `rootdir`, with the defaults: one
    /// permit, the working directory `./tmp`, and the test file itself as
    /// the single default argument.
    pub fn new(rootdir: &str) -> (r: Args)
        ensures
            r.rootdir@ == rootdir@,
            !r.debug,
            !r.print_errs,
            r.permits == 1u32,
            r.workdir@ == "./tmp"@,
            r.exe_path@.len() == 0,
            r.args@.len() == 1 && r.args@[0]@ == "{{name}}.{{extension}}"@,
            r.extensions@.len() == 0,
            r.included@.len() == 0 && r.exclude@.len() == 0,
            r.included_set@.len() == 0 && r.exclude_set@.len() == 0,
            r.rootdir_abs@.len() == 0,
    {
        let mut args: Vec<String> = Vec::new();
        args.push(String::from_str("{{name}}.{{extension}}"));
        Args {
            debug: false,
            print_errs: false,
            exe_path: String::new(),
            args,
            extensions: Vec::new(),
            included: Vec::new(),
            included_set: Vec::new(),
            exclude: Vec::new(),
            exclude_set: Vec::new(),
            permits: 1,
            workdir: String::from_str("./tmp"),
            rootdir: String::from_str(rootdir),
            rootdir_abs: String::new(),
        }
    }

    /// Turns debug mode on: diagnostic artifacts are kept.
    pub fn debug(self) -> (r: Args)
        ensures
            r == (Args { debug: true, ..self }),
    {
        Args { debug: true, ..self }
    }

    /// Prints assertion errors inline instead of saving a report file.
    pub fn print_errs(self) -> (r: Args)
        ensures
            r == (Args { print_errs: true, ..self }),
    {
        Args { print_errs: true, ..self }
    }

    /// Sets the total concurrency budget.
    pub fn permits(self, permits: u32) -> (r: Args)
        ensures
            r == (Args { permits, ..self }),
    {
        Args { permits, ..self }
    }

    /// Sets the default executable path.
    pub fn exe_path(self, exe_path: &str) -> (r: Args)
        ensures
            r.exe_path@ == exe_path@,
            r == (Args { exe_path: r.exe_path, ..self }),
    {
        Args { exe_path: String::from_str(exe_path), ..self }
    }

    /// Sets the default arguments.
    pub fn args(self, args: Vec<String>) -> (r: Args)
        ensures
            r == (Args { args, ..self }),
    {
        Args { args, ..self }
    }

    /// Sets the directory the tests run under.
    pub fn workdir(self, dir: &str) -> (r: Args)
        ensures
            r.workdir@ == dir@,
            r == (Args { workdir: r.workdir, ..self }),
    {
        Args { workdir: String::from_str(dir), ..self }
    }

    /// Sets the default input extensions.
    pub fn extensions(self, extensions: Vec<String>) -> (r: Args)
        ensures
            r == (Args { extensions, ..self }),
    {
        Args { extensions, ..self }
    }

    /// Sets the include filters.
    pub fn included(self, included: Vec<String>) -> (r: Args)
        ensures
            r == (Args { included, ..self }),
    {
        Args { included, ..self }
    }

    /// Sets the exclude filters.
    pub fn exclude(self, exclude: Vec<String>) -> (r: Args)
        ensures
            r == (Args { exclude, ..self }),
    {
        Args { exclude, ..self }
    }

    /// Fixes the canonical paths that the surrounding application
    /// resolved: the absolute root and the canonical include and exclude
    /// sets. The configuration language's own extension among the default
    /// extensions is a build error.
    pub fn finalize(
        self,
        rootdir_abs: String,
        included_set: Vec<String>,
        exclude_set: Vec<String>,
    ) -> (r: Result<Args, BuildError>)
        ensures
            r is Err == str_list_has(self.extensions@, "toml"@),
            (r matches Err(e) ==> e is InputExtToml),
            (r matches Ok(a) ==> a == (Args {
                rootdir_abs,
                included_set,
                exclude_set,
                ..self
            })),
    {
        let toml = String::from_str("toml");
        proof {
            reveal_strlit("toml");
        }
        if list_contains(&self.extensions, &toml) {
            return Err(BuildError::InputExtToml(self.rootdir));
        }
        Ok(Args { rootdir_abs, included_set, exclude_set, ..self })
    }

    /// Whether the run's filters leave this file out; `file` is the
    /// canonical path the application resolved.
    pub fn filtered(&self, file: &String) -> (r: bool)
        ensures
            r == spec_filtered(self.included_set@, self.exclude_set@, file@),
    {
        let included = if self.included_set.len() == 0 {
            true
        } else {
            list_contains(&self.included_set, file)
        };
        let excluded = if self.exclude_set.len() == 0 {
            false
        } else {
            list_contains(&self.exclude_set, file)
        };
        !included || excluded
    }
}

} // verus!
