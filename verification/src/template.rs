//! Template placeholder expansion.
//!
//! Configuration strings may contain the placeholders `{{name}}`,
//! `{{extension}}` and `{{rootdir}}`; every occurrence is substituted with
//! the test file's base name, its extension and the absolute root directory.

use vstd::prelude::*;

verus! {

/// True when `p` occurs in `s` at position `i`.
pub open spec fn occurs_at(s: Seq<char>, p: Seq<char>, i: int) -> bool {
    0 <= i && i + p.len() <= s.len() && s.subrange(i, i + p.len() as int) == p
}

/// True when `p` occurs somewhere in `s`.
pub open spec fn occurs(s: Seq<char>, p: Seq<char>) -> bool {
    exists|i: int| occurs_at(s, p, i)
}

/// The result of replacing every occurrence of `p` in `s` by `r`,
/// scanning left to right. An empty pattern replaces nothing.
pub open spec fn spec_replace(s: Seq<char>, p: Seq<char>, r: Seq<char>) -> Seq<char>
    decreases s.len(),
{
    if p.len() == 0 || s.len() < p.len() {
        s
    } else if s.subrange(0, p.len() as int) == p {
        r + spec_replace(s.subrange(p.len() as int, s.len() as int), p, r)
    } else {
        seq![s[0]] + spec_replace(s.subrange(1, s.len() as int), p, r)
    }
}

/// The placeholder for the test file's extension.
pub open spec fn ext_pat() -> Seq<char> {
    "{{extension}}"@
}

/// The placeholder for the test file's base name.
pub open spec fn name_pat() -> Seq<char> {
    "{{name}}"@
}

/// The placeholder for the absolute root directory.
pub open spec fn root_pat() -> Seq<char> {
    "{{rootdir}}"@
}

/// Expansion substitutes the extension, then the name, then the root
/// directory, each everywhere in the string.
pub open spec fn spec_expand(
    s: Seq<char>,
    name: Seq<char>,
    ext: Seq<char>,
    root: Seq<char>,
) -> Seq<char> {
    spec_replace(spec_replace(spec_replace(s, ext_pat(), ext), name_pat(), name), root_pat(), root)
}

/// True when the characters of `s` at positions `i..i + p@.len()` equal `p@`.
fn matches_at(s: &str, slen: usize, p: &str, plen: usize, i: usize) -> (b: bool)
    requires
        slen == s@.len(),
        plen == p@.len(),
        i + plen <= slen,
    ensures
        b == occurs_at(s@, p@, i as int),
{
    let mut j: usize = 0;
    while j < plen
        invariant
            j <= plen,
            slen == s@.len(),
            plen == p@.len(),
            i + plen <= slen,
            forall|k: int| 0 <= k < j ==> s@[i + k] == p@[k],
        decreases plen - j,
    {
        if s.get_char(i + j) != p.get_char(j) {
            assert(s@.subrange(i as int, i + plen) != p@) by {
                assert(s@.subrange(i as int, i + plen)[j as int] == s@[i + j]);
            }
            return false;
        }
        j += 1;
    }
    assert(s@.subrange(i as int, i + plen) =~= p@);
    true
}

proof fn lemma_replace_skip_one(s: Seq<char>, p: Seq<char>, i: int)
    requires
        p.len() > 0,
        0 <= i,
        i + p.len() <= s.len() || i < s.len(),
        i < s.len(),
    ensures
        s.subrange(i, s.len() as int).len() >= 1,
        s.subrange(i, s.len() as int)[0] == s[i],
        s.subrange(i, s.len() as int).subrange(1, s.len() - i) =~= s.subrange(i + 1, s.len() as int),
{
}

/// Replaces every occurrence of `p` in `s` by `r`, scanning left to right.
pub fn replace_all(s: &str, p: &str, r: &str) -> (res: String)
    ensures
        res@ == spec_replace(s@, p@, r@),
{
    let slen: usize = s.unicode_len();
    let plen: usize = p.unicode_len();
    let mut out: String = String::new();
    if plen == 0 {
        out.append(s);
        return out;
    }
    let mut i: usize = 0;
    proof {
        assert(s@.subrange(0, slen as int) =~= s@);
    }
    while i < slen
        invariant
            i <= slen,
            slen == s@.len(),
            plen == p@.len(),
            plen > 0,
            spec_replace(s@, p@, r@) == out@ + spec_replace(
                s@.subrange(i as int, slen as int),
                p@,
                r@,
            ),
        decreases slen - i,
    {
        let ghost rest = s@.subrange(i as int, slen as int);
        if plen <= slen - i && matches_at(s, slen, p, plen, i) {
            proof {
                assert(rest.subrange(0, plen as int) =~= s@.subrange(i as int, i + plen));
                assert(rest.subrange(plen as int, rest.len() as int) =~= s@.subrange(
                    i + plen,
                    slen as int,
                ));
            }
            out.append(r);
            i += plen;
            proof {
                assert(spec_replace(s@, p@, r@) == out@ + spec_replace(
                    s@.subrange(i as int, slen as int),
                    p@,
                    r@,
                ));
            }
        } else {
            proof {
                if i + plen <= slen {
                    assert(rest.subrange(0, plen as int) =~= s@.subrange(i as int, i + plen));
                } else {
                    assert(rest.len() < plen);
                }
                lemma_replace_skip_one(s@, p@, i as int);
            }
            let piece = s.substring_char(i, i + 1);
            out.append(piece);
            i += 1;
            proof {
                assert(out@ + spec_replace(s@.subrange(i as int, slen as int), p@, r@)
                    =~= spec_replace(s@, p@, r@));
            }
        }
    }
    proof {
        assert(s@.subrange(slen as int, slen as int) =~= Seq::<char>::empty());
        assert(spec_replace(Seq::<char>::empty(), p@, r@) =~= Seq::<char>::empty());
        assert(out@ =~= spec_replace(s@, p@, r@));
    }
    out
}

/// Expands the three placeholders in `s` against a test file's name,
/// extension and the run's absolute root directory.
pub fn expand(s: &str, name: &str, ext: &str, root: &str) -> (res: String)
    ensures
        res@ == spec_expand(s@, name@, ext@, root@),
{
    let step1 = replace_all(s, "{{extension}}", ext);
    let step2 = replace_all(step1.as_str(), "{{name}}", name);
    replace_all(step2.as_str(), "{{rootdir}}", root)
}

/// A pattern absent from a string is not substituted: replacement is the
/// identity there.
pub proof fn lemma_replace_absent(s: Seq<char>, p: Seq<char>, r: Seq<char>)
    requires
        p.len() > 0,
        !occurs(s, p),
    ensures
        spec_replace(s, p, r) == s,
    decreases s.len(),
{
    if s.len() < p.len() {
    } else if s.subrange(0, p.len() as int) == p {
        assert(occurs_at(s, p, 0));
        assert(false);
    } else {
        let tail = s.subrange(1, s.len() as int);
        assert forall|i: int| !occurs_at(tail, p, i) by {
            if occurs_at(tail, p, i) {
                assert(tail.subrange(i, i + p.len() as int) =~= s.subrange(
                    i + 1,
                    i + 1 + p.len() as int,
                ));
                assert(occurs_at(s, p, i + 1));
            }
        }
        lemma_replace_absent(tail, p, r);
        assert(spec_replace(s, p, r) =~= s);
    }
}

/// Every occurrence of a placeholder opens with `{{`.
proof fn lemma_placeholder_needs_brace(s: Seq<char>, p: Seq<char>)
    requires
        p.len() >= 2,
        p[0] == '{',
        p[1] == '{',
        !occurs(s, seq!['{', '{']),
    ensures
        !occurs(s, p),
{
    assert forall|i: int| !occurs_at(s, p, i) by {
        if occurs_at(s, p, i) {
            assert(s.subrange(i, i + p.len() as int)[0] == s[i]);
            assert(s.subrange(i, i + p.len() as int)[1] == s[i + 1]);
            assert(s.subrange(i, i + 2) =~= seq!['{', '{']);
            assert(occurs_at(s, seq!['{', '{'], i));
        }
    }
}

/// Expansion is the identity on a string holding no `{{`. In particular it
/// is idempotent on already-expanded output in which no braces remain: every
/// occurrence of a placeholder was already substituted, and nothing is
/// substituted twice.
pub proof fn lemma_expand_identity(s: Seq<char>, name: Seq<char>, ext: Seq<char>, root: Seq<char>)
    requires
        !occurs(s, seq!['{', '{']),
    ensures
        spec_expand(s, name, ext, root) == s,
{
    reveal_strlit("{{extension}}");
    reveal_strlit("{{name}}");
    reveal_strlit("{{rootdir}}");
    lemma_placeholder_needs_brace(s, ext_pat());
    lemma_placeholder_needs_brace(s, name_pat());
    lemma_placeholder_needs_brace(s, root_pat());
    lemma_replace_absent(s, ext_pat(), ext);
    lemma_replace_absent(s, name_pat(), name);
    lemma_replace_absent(s, root_pat(), root);
}

/// Expanding twice equals expanding once, whenever the expanded output
/// holds no `{{` any more.
pub proof fn lemma_expand_idempotent(
    s: Seq<char>,
    name: Seq<char>,
    ext: Seq<char>,
    root: Seq<char>,
)
    requires
        !occurs(spec_expand(s, name, ext, root), seq!['{', '{']),
    ensures
        spec_expand(spec_expand(s, name, ext, root), name, ext, root) == spec_expand(
            s,
            name,
            ext,
            root,
        ),
{
    lemma_expand_identity(spec_expand(s, name, ext, root), name, ext, root);
}

} // verus!
