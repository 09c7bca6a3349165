//! Line-oriented diff rendering for failed equality assertions: hunks with
//! three lines of context, old and new line numbers in two columns, and a
//! dashed rule between hunks.

use crate::strutil::{spec_digits, usize_to_string};
use vstd::prelude::*;

verus! {

/// A run of `n` dashes.
pub open spec fn spec_dashes(n: nat) -> Seq<char>
    decreases n,
{
    if n == 0 {
        Seq::<char>::empty()
    } else {
        spec_dashes((n - 1) as nat).push('-')
    }
}

/// A string padded on the right with spaces to four columns.
pub open spec fn spec_pad4(s: Seq<char>) -> Seq<char>
    decreases 4 - s.len(),
{
    if s.len() >= 4 {
        s
    } else {
        spec_pad4(s.push(' '))
    }
}

/// A line-number column: the 1-based index, or four spaces.
pub open spec fn spec_line_col(idx: Option<usize>) -> Seq<char> {
    match idx {
        None => "    "@,
        Some(k) => spec_pad4(spec_digits(k + 1)),
    }
}

/// The sign of a change: deleted, inserted, or kept.
pub open spec fn spec_sign(tag: u8) -> Seq<char> {
    if tag == 0 {
        "-"@
    } else if tag == 1 {
        "+"@
    } else {
        " "@
    }
}

/// One rendered change: both line-number columns, the sign, the line's
/// text, and a newline where the text lacks one.
pub open spec fn spec_change_line(c: (usize, u8, Option<usize>, Option<usize>, Seq<char>, bool)) -> Seq<
    char,
> {
    spec_line_col(c.2) + spec_line_col(c.3) + " |"@ + spec_sign(c.1) + c.4 + (if c.5 {
        "\n"@
    } else {
        Seq::<char>::empty()
    })
}

/// What stands before the change at position `j`: the column header at
/// the start of each hunk, with a dashed rule between hunks.
pub open spec fn spec_change_head(
    cs: Seq<(usize, u8, Option<usize>, Option<usize>, Seq<char>, bool)>,
    j: int,
) -> Seq<char> {
    if j == 0 {
        "old new\n"@
    } else if cs[j].0 != cs[j - 1].0 {
        spec_dashes(80) + "\n"@ + "old new\n"@
    } else {
        Seq::<char>::empty()
    }
}

/// The rendering of the first `i` changes.
pub open spec fn spec_render_pre(
    cs: Seq<(usize, u8, Option<usize>, Option<usize>, Seq<char>, bool)>,
    i: int,
) -> Seq<char>
    decreases i,
{
    if i <= 0 {
        Seq::<char>::empty()
    } else {
        spec_render_pre(cs, i - 1) + spec_change_head(cs, i - 1) + spec_change_line(cs[i - 1])
    }
}

/// The full rendering of a computed diff.
pub open spec fn spec_render_diff(
    cs: Seq<(usize, u8, Option<usize>, Option<usize>, Seq<char>, bool)>,
) -> Seq<char> {
    spec_render_pre(cs, cs.len() as int)
}

/// One line of a computed diff: which context group it belongs to, whether
/// the line was deleted (0), inserted (1) or kept (2), its line indices on
/// the old and new side, its text, and whether a trailing newline is
/// missing.
#[derive(Clone, Debug)]
pub struct DiffChange {
    pub group: usize,
    pub tag: u8,
    pub old_index: Option<usize>,
    pub new_index: Option<usize>,
    pub text: String,
    pub missing_newline: bool,
}

/// What diffing two texts line by line yields, grouped with three lines of
/// context: a function of the two texts alone.
pub uninterp spec fn diff_changes_of(old: Seq<u8>, new: Seq<u8>) -> Seq<
    (usize, u8, Option<usize>, Option<usize>, Seq<char>, bool),
>;

/// Relies on similar::TextDiff::from_lines, TextDiff::grouped_ops with
/// three lines of context, and TextDiff::iter_changes, over the lossily
/// decoded texts: the computed diff is a function of the two byte strings
/// alone; every change's line index stays within its text's line count,
/// which the byte length bounds.
#[verifier::external_body]
fn diff_changes(old: &[u8], new: &[u8]) -> (r: Vec<DiffChange>)
    ensures
        r@.len() == diff_changes_of(old@, new@).len(),
        forall|i: int|
            0 <= i < r@.len() ==> {
                let cs = diff_changes_of(old@, new@);
                (#[trigger] r@[i]).group == cs[i].0 && r@[i].tag == cs[i].1 && r@[i].old_index
                    == cs[i].2 && r@[i].new_index == cs[i].3 && r@[i].text@ == cs[i].4
                    && r@[i].missing_newline == cs[i].5
            },
        forall|i: int|
            0 <= i < r@.len() ==> ((#[trigger] r@[i]).old_index matches Some(k) ==> k
                <= old@.len()),
        forall|i: int|
            0 <= i < r@.len() ==> ((#[trigger] r@[i]).new_index matches Some(k) ==> k
                <= new@.len()),
{
    let old_s = String::from_utf8_lossy(old);
    let new_s = String::from_utf8_lossy(new);
    let diff = similar::TextDiff::from_lines(old_s.as_ref(), new_s.as_ref());
    let mut out = Vec::new();
    for (gi, group) in diff.grouped_ops(3).iter().enumerate() {
        for ch in group.iter().flat_map(|op| diff.iter_changes(op)) {
            let tag = match ch.tag() { similar::ChangeTag::Delete => 0, similar::ChangeTag::Insert => 1, similar::ChangeTag::Equal => 2 };
            let (text, missing_newline) = (ch.to_string_lossy().into_owned(), ch.missing_newline());
            out.push(DiffChange { group: gi, tag, old_index: ch.old_index(), new_index: ch.new_index(), text, missing_newline });
        }
    }
    out
}

/// A line-number column: the 1-based index left-aligned to four columns,
/// or four spaces where the line has no number on that side.
fn line_column(idx: Option<usize>, bound: usize) -> (s: String)
    requires
        idx matches Some(k) ==> k <= bound,
        bound < usize::MAX,
    ensures
        s@ == spec_line_col(idx),
{
    match idx {
        None => String::from_str("    "),
        Some(k) => {
            let mut s = usize_to_string(k + 1);
            let mut l = s.as_str().unicode_len();
            while l < 4
                invariant
                    l == s@.len(),
                    spec_pad4(s@) == spec_pad4(spec_digits(k + 1)),
                decreases 4 - l,
            {
                let ghost prev = s@;
                s.append(" ");
                proof {
                    reveal_strlit(" ");
                    assert(s@ =~= prev.push(' '));
                }
                l += 1;
            }
            s
        },
    }
}

/// Appends the dashed rule and the column header that open a later hunk.
fn append_rule_header(s: &mut String)
    ensures
        final(s)@ == old(s)@ + spec_dashes(80) + "\n"@ + "old new\n"@,
{
    let mut d: usize = 0;
    let ghost before = s@;
    while d < 80
        invariant
            d <= 80,
            s@ == before + spec_dashes(d as nat),
        decreases 80 - d,
    {
        let ghost prev = s@;
        s.append("-");
        proof {
            reveal_strlit("-");
            assert(s@ =~= prev.push('-'));
        }
        d += 1;
    }
    s.append("\n");
    s.append("old new\n");
}

/// Appends one rendered change.
fn append_change(
    s: &mut String,
    c: &DiffChange,
    old_len: usize,
    new_len: usize,
    cc: Ghost<(usize, u8, Option<usize>, Option<usize>, Seq<char>, bool)>,
)
    requires
        (c.old_index matches Some(k) ==> k <= old_len),
        (c.new_index matches Some(k) ==> k <= new_len),
        old_len < usize::MAX,
        new_len < usize::MAX,
        cc@.1 == c.tag,
        cc@.2 == c.old_index,
        cc@.3 == c.new_index,
        cc@.4 == c.text@,
        cc@.5 == c.missing_newline,
    ensures
        final(s)@ == old(s)@ + spec_change_line(cc@),
{
    let oc = line_column(c.old_index, old_len);
    s.append(oc.as_str());
    let nc = line_column(c.new_index, new_len);
    s.append(nc.as_str());
    s.append(" |");
    match c.tag {
        0 => s.append("-"),
        1 => s.append("+"),
        _ => s.append(" "),
    }
    s.append(c.text.as_str());
    if c.missing_newline {
        s.append("\n");
    }
    proof {
        assert(s@ =~= old(s)@ + spec_change_line(cc@));
    }
}

/// Renders a line diff of the two texts: per hunk a column header and
/// each change with its old and new line numbers and a `-`/`+`/` ` sign;
/// hunks are separated by a dashed rule. The whole text is pinned to the
/// rendering of the computed diff.
pub fn render_text_diff(old: &[u8], new: &[u8]) -> (s: String)
    requires
        old@.len() < usize::MAX,
        new@.len() < usize::MAX,
    ensures
        s@ == spec_render_diff(diff_changes_of(old@, new@)),
{
    let changes = diff_changes(old, new);
    let ghost cs = diff_changes_of(old@, new@);
    let mut s = String::new();
    let n = changes.len();
    let mut i: usize = 0;
    let mut started = false;
    let mut cur_group: usize = 0;
    while i < n
        invariant
            i <= n == changes@.len() == cs.len(),
            old@.len() < usize::MAX,
            new@.len() < usize::MAX,
            forall|j: int|
                0 <= j < n ==> (#[trigger] changes@[j]).group == cs[j].0 && changes@[j].tag
                    == cs[j].1 && changes@[j].old_index == cs[j].2 && changes@[j].new_index
                    == cs[j].3 && changes@[j].text@ == cs[j].4 && changes@[j].missing_newline
                    == cs[j].5,
            forall|j: int|
                0 <= j < n ==> ((#[trigger] changes@[j]).old_index matches Some(k) ==> k
                    <= old@.len()),
            forall|j: int|
                0 <= j < n ==> ((#[trigger] changes@[j]).new_index matches Some(k) ==> k
                    <= new@.len()),
            s@ == spec_render_pre(cs, i as int),
            i > 0 ==> started && cur_group == cs[i - 1].0,
            i == 0 ==> !started,
        decreases n - i,
    {
        let g = changes[i].group;
        if !started || g != cur_group {
            if started {
                append_rule_header(&mut s);
            } else {
                s.append("old new\n");
            }
            started = true;
            cur_group = g;
        }
        proof {
            assert(s@ =~= spec_render_pre(cs, i as int) + spec_change_head(cs, i as int));
        }
        append_change(&mut s, &changes[i], old.len(), new.len(), Ghost(cs[i as int]));
        proof {
            assert(s@ =~= spec_render_pre(cs, i + 1));
        }
        i += 1;
    }
    s
}

} // verus!
