//! `git worktree list --porcelain`: its blocks, one per worktree.
use vstd::prelude::*;

use crate::text::{
    chars_equal, chars_of, has_prefix, lines_of, slice_chars, split_lines, starts_with, string_of,
    strip_prefix_once, without_prefix,
};

verus! {

/// One worktree as `git worktree list --porcelain` describes it.
pub struct RawWorktree {
    pub path: String,
    pub head: Option<String>,
    /// Short branch name (`refs/heads/` removed); `None` when detached.
    pub branch: Option<String>,
    pub prunable: bool,
    /// git keeps it locked: `git worktree remove` refuses it without `--force`.
    pub locked: bool,
}

/// A [`RawWorktree`] seen as characters.
pub struct RawWorktreeView {
    pub path: Seq<char>,
    pub head: Option<Seq<char>>,
    pub branch: Option<Seq<char>>,
    pub prunable: bool,
    pub locked: bool,
}

impl View for RawWorktree {
    type V = RawWorktreeView;

    open spec fn view(&self) -> RawWorktreeView {
        RawWorktreeView {
            path: self.path@,
            head: self.head.deep_view(),
            branch: self.branch.deep_view(),
            prunable: self.prunable,
            locked: self.locked,
        }
    }
}

/// The reader's state between two lines: the finished blocks and the open one.
pub struct PorcelainState {
    pub done: Seq<RawWorktreeView>,
    pub cur: Option<RawWorktreeView>,
}

/// A line that opens a block: `worktree <path>`.
pub open spec fn opens_block(line: Seq<char>) -> bool {
    has_prefix(line, "worktree "@)
}

/// What one attribute line of an open block sets in it.
pub open spec fn apply_attribute(w: RawWorktreeView, line: Seq<char>) -> RawWorktreeView {
    if has_prefix(line, "HEAD "@) {
        RawWorktreeView { head: Some(line.skip("HEAD "@.len() as int)), ..w }
    } else if has_prefix(line, "branch "@) {
        RawWorktreeView {
            branch: Some(without_prefix(line.skip("branch "@.len() as int), "refs/heads/"@)),
            ..w
        }
    } else if line == "prunable"@ || has_prefix(line, "prunable "@) {
        RawWorktreeView { prunable: true, ..w }
    } else if line == "locked"@ || has_prefix(line, "locked "@) {
        RawWorktreeView { locked: true, ..w }
    } else {
        w
    }
}

/// The reader's step on one line: a blank line closes the open block, a
/// `worktree` line closes it and opens a new one, any other line updates the
/// open block (and is ignored when none is open).
pub open spec fn porcelain_step(st: PorcelainState, line: Seq<char>) -> PorcelainState {
    if line.len() == 0 {
        match st.cur {
            Some(w) => PorcelainState { done: st.done.push(w), cur: None },
            None => st,
        }
    } else if opens_block(line) {
        let fresh = RawWorktreeView {
            path: line.skip("worktree "@.len() as int),
            head: None,
            branch: None,
            prunable: false,
            locked: false,
        };
        match st.cur {
            Some(w) => PorcelainState { done: st.done.push(w), cur: Some(fresh) },
            None => PorcelainState { done: st.done, cur: Some(fresh) },
        }
    } else {
        match st.cur {
            Some(w) => PorcelainState { done: st.done, cur: Some(apply_attribute(w, line)) },
            None => st,
        }
    }
}

/// The reader's state after the given lines.
pub open spec fn porcelain_fold(lines: Seq<Seq<char>>) -> PorcelainState
    decreases lines.len(),
{
    if lines.len() == 0 {
        PorcelainState { done: seq![], cur: None }
    } else {
        porcelain_step(porcelain_fold(lines.drop_last()), lines.last())
    }
}

/// The finished blocks, the open one last.
pub open spec fn porcelain_close(st: PorcelainState) -> Seq<RawWorktreeView> {
    match st.cur {
        Some(w) => st.done.push(w),
        None => st.done,
    }
}

/// The worktrees that `text` describes, in order.
pub open spec fn porcelain_worktrees(text: Seq<char>) -> Seq<RawWorktreeView> {
    porcelain_close(porcelain_fold(lines_of(text)))
}

/// Number of lines that open a block.
pub open spec fn count_block_openers(lines: Seq<Seq<char>>) -> nat
    decreases lines.len(),
{
    if lines.len() == 0 {
        0
    } else {
        count_block_openers(lines.drop_last()) + if opens_block(lines.last()) {
            1nat
        } else {
            0nat
        }
    }
}

/// The views of a vector of worktrees.
pub open spec fn raw_views(v: Seq<RawWorktree>) -> Seq<RawWorktreeView> {
    v.map_values(|w: RawWorktree| w@)
}

fn opt_string(v: &Option<Vec<char>>) -> (r: Option<String>)
    ensures
        r.deep_view() == v.deep_view(),
{
    match v {
        Some(c) => Some(string_of(c)),
        None => None,
    }
}

/// Parses `git worktree list --porcelain` into its worktrees, in order.
pub fn parse_porcelain(text: &str) -> (r: Vec<RawWorktree>)
    ensures
        raw_views(r@) == porcelain_worktrees(text@),
{
    let chars = chars_of(text);
    let lines = split_lines(&chars);
    let kw_worktree = chars_of("worktree ");
    let kw_head = chars_of("HEAD ");
    let kw_branch = chars_of("branch ");
    let kw_heads = chars_of("refs/heads/");
    let kw_prunable = chars_of("prunable");
    let kw_prunable_sp = chars_of("prunable ");
    let kw_locked = chars_of("locked");
    let kw_locked_sp = chars_of("locked ");

    let mut out: Vec<RawWorktree> = Vec::new();
    // The open block: path, head, branch (as characters), prunable.
    let mut cur: Option<(Vec<char>, Option<Vec<char>>, Option<Vec<char>>, bool, bool)> = None;
    let ghost all = lines.deep_view();
    let mut i: usize = 0;
    proof {
        assert(all.take(0) =~= Seq::<Seq<char>>::empty());
        assert(raw_views(out@) =~= Seq::<RawWorktreeView>::empty());
    }
    while i < lines.len()
        invariant
            all == lines.deep_view(),
            all == lines_of(chars@),
            chars@ == text@,
            i <= lines.len(),
            kw_worktree@ == "worktree "@,
            kw_head@ == "HEAD "@,
            kw_branch@ == "branch "@,
            kw_heads@ == "refs/heads/"@,
            kw_prunable@ == "prunable"@,
            kw_prunable_sp@ == "prunable "@,
            kw_locked@ == "locked"@,
            kw_locked_sp@ == "locked "@,
            raw_views(out@) == porcelain_fold(all.take(i as int)).done,
            porcelain_fold(all.take(i as int)).cur == (match cur {
                Some(c) => Some(
                    RawWorktreeView {
                        path: c.0@,
                        head: c.1.deep_view(),
                        branch: c.2.deep_view(),
                        prunable: c.3,
                        locked: c.4,
                    },
                ),
                None => None::<RawWorktreeView>,
            }),
        decreases lines.len() - i,
    {
        let line = &lines[i];
        let ghost lv = line@;
        proof {
            assert(all[i as int] == lv);
            assert(all.take(i + 1).drop_last() =~= all.take(i as int));
            assert(all.take(i + 1).last() == lv);
        }
        let ghost before = porcelain_fold(all.take(i as int));
        let ghost old_out = raw_views(out@);
        if line.len() == 0 {
            match cur {
                Some(c) => {
                    let w = RawWorktree {
                        path: string_of(&c.0),
                        head: opt_string(&c.1),
                        branch: opt_string(&c.2),
                        prunable: c.3,
                        locked: c.4,
                    };
                    out.push(w);
                    assert(raw_views(out@) =~= old_out.push(before.cur.unwrap()));
                },
                None => {},
            }
            cur = None;
        } else if starts_with(line, &kw_worktree) {
            match cur {
                Some(c) => {
                    let w = RawWorktree {
                        path: string_of(&c.0),
                        head: opt_string(&c.1),
                        branch: opt_string(&c.2),
                        prunable: c.3,
                        locked: c.4,
                    };
                    out.push(w);
                    assert(raw_views(out@) =~= old_out.push(before.cur.unwrap()));
                },
                None => {},
            }
            let p = slice_chars(line, kw_worktree.len(), line.len());
            assert(p@ =~= lv.skip("worktree "@.len() as int));
            cur = Some((p, None, None, false, false));
        } else {
            match cur {
                Some(c) => {
                    let (p, mut h, mut b, mut pr, mut lk) = c;
                    if starts_with(line, &kw_head) {
                        let hv = slice_chars(line, kw_head.len(), line.len());
                        assert(hv@ =~= lv.skip("HEAD "@.len() as int));
                        assert(hv.deep_view() =~= hv@);
                        h = Some(hv);
                    } else if starts_with(line, &kw_branch) {
                        let rest = slice_chars(line, kw_branch.len(), line.len());
                        assert(rest@ =~= lv.skip("branch "@.len() as int));
                        let bv = strip_prefix_once(&rest, &kw_heads);
                        assert(bv.deep_view() =~= bv@);
                        b = Some(bv);
                    } else if chars_equal(line, &kw_prunable) || starts_with(line, &kw_prunable_sp) {
                        pr = true;
                    } else if chars_equal(line, &kw_locked) || starts_with(line, &kw_locked_sp) {
                        lk = true;
                    }
                    cur = Some((p, h, b, pr, lk));
                },
                None => {},
            }
        }
        i += 1;
    }
    proof {
        assert(all.take(lines.len() as int) =~= all);
    }
    let ghost before_close = raw_views(out@);
    match cur {
        Some(c) => {
            let w = RawWorktree {
                path: string_of(&c.0),
                head: opt_string(&c.1),
                branch: opt_string(&c.2),
                prunable: c.3,
                locked: c.4,
            };
            out.push(w);
            assert(raw_views(out@) =~= before_close.push(porcelain_fold(all).cur.unwrap()));
        },
        None => {},
    }
    out
}

/// Law: `parse_porcelain` yields one worktree per `worktree <path>` line, so
/// no block is lost and none is invented.
pub proof fn lemma_one_worktree_per_header(text: Seq<char>)
    ensures
        porcelain_worktrees(text).len() == count_block_openers(lines_of(text)),
{
    lemma_fold_counts(lines_of(text));
}

proof fn lemma_fold_counts(lines: Seq<Seq<char>>)
    ensures
        porcelain_fold(lines).done.len() + (if porcelain_fold(lines).cur is Some {
            1nat
        } else {
            0nat
        }) == count_block_openers(lines),
    decreases lines.len(),
{
    reveal_strlit("worktree ");
    if lines.len() > 0 {
        lemma_fold_counts(lines.drop_last());
    }
}

/// The paths that the `worktree <path>` lines name, in order.
pub open spec fn block_paths(lines: Seq<Seq<char>>) -> Seq<Seq<char>>
    decreases lines.len(),
{
    if lines.len() == 0 {
        seq![]
    } else {
        block_paths(lines.drop_last()) + if opens_block(lines.last()) {
            seq![lines.last().skip("worktree "@.len() as int)]
        } else {
            Seq::<Seq<char>>::empty()
        }
    }
}

/// The paths of the finished blocks, then the open one's.
pub open spec fn state_paths(st: PorcelainState) -> Seq<Seq<char>> {
    st.done.map_values(|w: RawWorktreeView| w.path) + match st.cur {
        Some(w) => seq![w.path],
        None => Seq::<Seq<char>>::empty(),
    }
}

proof fn lemma_fold_paths(lines: Seq<Seq<char>>)
    ensures
        state_paths(porcelain_fold(lines)) == block_paths(lines),
    decreases lines.len(),
{
    reveal_strlit("worktree ");
    if lines.len() == 0 {
        assert(state_paths(porcelain_fold(lines)) =~= Seq::<Seq<char>>::empty());
    } else {
        let prev = porcelain_fold(lines.drop_last());
        lemma_fold_paths(lines.drop_last());
        let line = lines.last();
        let now = porcelain_fold(lines);
        let pd = prev.done.map_values(|w: RawWorktreeView| w.path);
        if line.len() == 0 {
            if prev.cur is Some {
                assert(now.done.map_values(|w: RawWorktreeView| w.path) =~= pd.push(prev.cur->0.path));
            }
            assert(state_paths(now) =~= state_paths(prev));
            assert(block_paths(lines) =~= block_paths(lines.drop_last()));
        } else if opens_block(line) {
            if prev.cur is Some {
                assert(now.done.map_values(|w: RawWorktreeView| w.path) =~= pd.push(prev.cur->0.path));
            }
            assert(state_paths(now) =~= state_paths(prev).push(line.skip("worktree "@.len() as int)));
            assert(block_paths(lines) =~= block_paths(lines.drop_last()).push(
                line.skip("worktree "@.len() as int),
            ));
        } else {
            assert(state_paths(now) =~= state_paths(prev));
            assert(block_paths(lines) =~= block_paths(lines.drop_last()));
        }
    }
}

/// Law: the worktrees come in the order of the `worktree <path>` lines, and
/// the i-th one's path is the i-th such line without its `worktree ` prefix.
pub proof fn lemma_paths_follow_headers(text: Seq<char>)
    ensures
        porcelain_worktrees(text).map_values(|w: RawWorktreeView| w.path) == block_paths(
            lines_of(text),
        ),
{
    let st = porcelain_fold(lines_of(text));
    lemma_fold_paths(lines_of(text));
    assert(porcelain_worktrees(text).map_values(|w: RawWorktreeView| w.path) =~= state_paths(st));
}

/// Law: a `prunable` or `prunable <reason>` line marks its worktree prunable,
/// whatever else the block says; no other line ever clears the mark, and a
/// line that is neither a `prunable` line nor a `worktree` line leaves it as
/// it was.
pub proof fn lemma_prunable_lines(w: RawWorktreeView, line: Seq<char>)
    ensures
        (line == "prunable"@ || has_prefix(line, "prunable "@)) ==> apply_attribute(
            w,
            line,
        ).prunable,
        w.prunable ==> apply_attribute(w, line).prunable,
        !(line == "prunable"@ || has_prefix(line, "prunable "@)) ==> apply_attribute(
            w,
            line,
        ).prunable == w.prunable,
        apply_attribute(w, line).path == w.path,
{
    reveal_strlit("prunable");
    reveal_strlit("prunable ");
    reveal_strlit("HEAD ");
    reveal_strlit("branch ");
    if line == "prunable"@ || has_prefix(line, "prunable "@) {
        if has_prefix(line, "prunable "@) {
            assert(line.take(9)[0] == line[0]);
        }
        assert(line[0] == 'p');
        assert(!has_prefix(line, "HEAD "@)) by {
            if has_prefix(line, "HEAD "@) {
                assert(line.take(5)[0] == 'H');
            }
        }
        assert(!has_prefix(line, "branch "@)) by {
            if has_prefix(line, "branch "@) {
                assert(line.take(7)[0] == 'b');
            }
        }
    }
}

/// Law: in a listing, a block's `prunable` line makes that worktree prunable
/// in the result whatever its other lines: the state after such a line has
/// the open worktree prunable, and later lines of the block keep it so.
pub proof fn lemma_prunable_line_marks_open_block(st: PorcelainState, line: Seq<char>)
    requires
        st.cur is Some,
        line == "prunable"@ || has_prefix(line, "prunable "@),
    ensures
        porcelain_step(st, line).cur is Some,
        porcelain_step(st, line).cur->0.prunable,
        porcelain_step(st, line).cur->0.path == st.cur->0.path,
        porcelain_step(st, line).done == st.done,
{
    reveal_strlit("prunable");
    reveal_strlit("prunable ");
    reveal_strlit("worktree ");
    lemma_prunable_lines(st.cur->0, line);
    if has_prefix(line, "prunable "@) {
        assert(line.take(9)[0] == line[0]);
    }
    assert(line.len() > 0);
    assert(line[0] == 'p');
    assert(!opens_block(line)) by {
        if opens_block(line) {
            assert(line.take(9)[0] == 'w');
        }
    }
}

/// Law: inside an open block, any line other than a blank or `worktree` line
/// keeps the worktree prunable once it is.
pub proof fn lemma_prunable_stays_in_block(st: PorcelainState, line: Seq<char>)
    requires
        st.cur is Some,
        st.cur->0.prunable,
        line.len() > 0,
        !opens_block(line),
    ensures
        porcelain_step(st, line).cur is Some,
        porcelain_step(st, line).cur->0.prunable,
{
    lemma_prunable_lines(st.cur->0, line);
}

} // verus!
