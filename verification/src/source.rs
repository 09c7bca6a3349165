//! A value paired with the configuration files it was last set from. The
//! provenance is recorded only in debug mode and serves the generated
//! configuration dumps.

use vstd::prelude::*;

verus! {

/// The provenance rendered as comment lines, one per recorded file.
pub open spec fn spec_source_lines(s: Seq<String>) -> Seq<char>
    decreases s.len(),
{
    if s.len() == 0 {
        Seq::<char>::empty()
    } else {
        spec_source_lines(s.drop_last()) + "# "@ + s.last()@ + "\n"@
    }
}

/// A configuration value with the paths of the files that set it.
#[derive(Clone, Debug)]
pub struct Source<T> {
    pub source: Vec<String>,
    pub inner: T,
}

impl<T> Source<T> {
    /// A value with empty provenance.
    pub fn new(inner: T) -> (r: Self)
        ensures
            r.inner == inner,
            r.source@.len() == 0,
    {
        Source { source: Vec::new(), inner }
    }

    /// A value set by the file at `p`; the path is recorded only in debug
    /// mode.
    pub fn with_source(inner: T, p: &str, debug: bool) -> (r: Self)
        ensures
            r.inner == inner,
            debug ==> r.source@.len() == 1 && r.source@[0]@ == p@,
            !debug ==> r.source@.len() == 0,
    {
        let mut source: Vec<String> = Vec::new();
        if debug {
            source.push(Self::fmt_source(p));
        }
        Source { source, inner }
    }

    /// A path as it is recorded in provenance.
    pub fn fmt_source(p: &str) -> (r: String)
        ensures
            r@ == p@,
    {
        String::from_str(p)
    }

    /// Records one more source file, in debug mode.
    pub fn add_source(&mut self, p: &str, debug: bool)
        ensures
            final(self).inner == old(self).inner,
            !debug ==> final(self).source@ == old(self).source@,
            debug ==> final(self).source@.len() == old(self).source@.len() + 1
                && final(self).source@.last()@ == p@ && forall|i: int|
                0 <= i < old(self).source@.len() ==> final(self).source@[i] == old(self).source@[i],
    {
        if debug {
            self.source.push(Self::fmt_source(p));
        }
    }

    /// The provenance as comment lines for a configuration dump.
    pub fn source_display(&self) -> (r: String)
        ensures
            r@ == spec_source_lines(self.source@),
    {
        let mut r = String::new();
        let n = self.source.len();
        let mut i: usize = 0;
        proof {
            assert(self.source@.take(0) =~= Seq::<String>::empty());
        }
        while i < n
            invariant
                i <= n == self.source@.len(),
                r@ == spec_source_lines(self.source@.take(i as int)),
            decreases n - i,
        {
            proof {
                assert(self.source@.take(i + 1).drop_last() =~= self.source@.take(i as int));
                assert(self.source@.take(i + 1).last() == self.source@[i as int]);
            }
            r.append("# ");
            r.append(self.source[i].as_str());
            r.append("\n");
            i += 1;
        }
        proof {
            assert(self.source@.take(n as int) =~= self.source@);
        }
        r
    }
}

} // verus!
