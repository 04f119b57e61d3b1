//! The comments sidebar: threads rendered to lines, with a map from lines to threads.
use vstd::prelude::*;
use std::collections::HashSet;
use crate::clock::UtcTime;
use crate::github::pr::PrChain;
use crate::text::{views, lemma_views_push, lemma_views_add};
use crate::types::comment::{Comment, CommentThread};
use crate::ui::render::{lemma_comment_block_len, chain_header_lines, comment_block, heavy_rule, render_chain_header,
    render_comment_lines_with_prefix, rule};

verus! {

broadcast use {vstd::std_specs::hash::group_hash_axioms, vstd::string::group_string_axioms};

/// The collapsed set after toggling thread `i`: removed when it was there, added when not.
pub open spec fn flipped(s: Set<usize>, i: usize) -> Set<usize> {
    if s.contains(i) {
        s.remove(i)
    } else {
        s.insert(i)
    }
}

/// Toggling a thread twice leaves the collapsed threads as they were.
pub proof fn lemma_toggle_collapse_twice(s: Set<usize>, i: usize)
    ensures
        flipped(flipped(s, i), i) == s,
{
    assert(flipped(flipped(s, i), i) =~= s);
}

/// Toggling a thread changes whether that thread is collapsed, and no other thread.
pub proof fn lemma_toggle_collapse_only_that(s: Set<usize>, i: usize, j: usize)
    ensures
        flipped(s, i).contains(i) != s.contains(i),
        j != i ==> flipped(s, i).contains(j) == s.contains(j),
{
}

/// An entry of the line map: first line, line after the last, thread index, and whether
/// the lines are those of a reply.
pub type LineEntry = (usize, usize, usize, bool);

/// The blocks of a thread: its root, then, unless it is collapsed, each reply after `└─`.
pub open spec fn thread_blocks(t: CommentThread, collapsed: bool, now: UtcTime) -> Seq<Seq<Seq<char>>> {
    let root = comment_block(t.root, Seq::empty(), t.is_resolved, now);
    if collapsed {
        seq![root]
    } else {
        seq![root] + t.replies@.map_values(|r: Comment| comment_block(r, "└─"@, false, now))
    }
}

/// The first `m` blocks of thread `idx` put after `lines`, each with its map entry.
pub open spec fn place_blocks(
    lines: Seq<Seq<char>>,
    map: Seq<(int, int, int, bool)>,
    blocks: Seq<Seq<Seq<char>>>,
    idx: int,
    m: int,
) -> (Seq<Seq<char>>, Seq<(int, int, int, bool)>)
    decreases m,
{
    if m <= 0 {
        (lines, map)
    } else {
        let p = place_blocks(lines, map, blocks, idx, m - 1);
        let b = blocks[m - 1];
        (p.0 + b, p.1.push((p.0.len() as int, (p.0.len() + b.len()) as int, idx, m - 1 > 0)))
    }
}

/// The lines and the line map of the first `k` threads, after `header`.
pub open spec fn layout(
    ts: Seq<CommentThread>,
    collapsed: Set<usize>,
    now: UtcTime,
    header: Seq<Seq<char>>,
    k: int,
) -> (Seq<Seq<char>>, Seq<(int, int, int, bool)>)
    decreases k,
{
    if k <= 0 {
        (header, Seq::empty())
    } else {
        let p = layout(ts, collapsed, now, header, k - 1);
        let blocks = thread_blocks(ts[k - 1], collapsed.contains((k - 1) as usize), now);
        place_blocks(p.0, p.1, blocks, k - 1, blocks.len() as int)
    }
}

/// What the comments sidebar shows at time `now`, and its line map.
pub open spec fn rendered_comments(
    ts: Seq<CommentThread>,
    collapsed: Set<usize>,
    chain: Option<PrChain>,
    now: UtcTime,
) -> (Seq<Seq<char>>, Seq<(int, int, int, bool)>) {
    if ts.len() == 0 {
        (
            chain_header_lines(chain) + seq![
                heavy_rule(),
                "No comments yet."@,
                "Comments will appear here when available."@,
                heavy_rule(),
            ],
            Seq::empty(),
        )
    } else {
        layout(ts, collapsed, now, chain_header_lines(chain), ts.len() as int)
    }
}

/// The line map as integers.
pub open spec fn entries(map: Seq<LineEntry>) -> Seq<(int, int, int, bool)> {
    map.map_values(|e: LineEntry| (e.0 as int, e.1 as int, e.2 as int, e.3))
}

/// The thread shown at a line: that of the first entry whose lines hold it.
pub open spec fn thread_at_line(map: Seq<(int, int, int, bool)>, line: int) -> Option<int>
    decreases map.len(),
{
    if map.len() == 0 {
        None
    } else if map[0].0 <= line < map[0].1 {
        Some(map[0].2)
    } else {
        thread_at_line(map.drop_first(), line)
    }
}

/// The first line of a thread: that of the first root entry of the thread.
pub open spec fn thread_start_line(map: Seq<(int, int, int, bool)>, idx: int) -> Option<int>
    decreases map.len(),
{
    if map.len() == 0 {
        None
    } else if map[0].2 == idx && !map[0].3 {
        Some(map[0].0)
    } else {
        thread_start_line(map.drop_first(), idx)
    }
}

/// Renders comments to lines and tracks line->comment mapping.
/// Uses 0-based line numbers to match get_cursor() behavior.
pub struct CommentBuffer {
    threads: Vec<CommentThread>,
    collapsed: HashSet<usize>,
    line_map: Vec<LineEntry>,
    pr_chain: Option<PrChain>,
}

/// What a comment buffer holds.
pub struct CommentBufferView {
    pub threads: Seq<CommentThread>,
    pub collapsed: Set<usize>,
    pub line_map: Seq<(int, int, int, bool)>,
    pub chain: Option<PrChain>,
}

impl View for CommentBuffer {
    type V = CommentBufferView;

    closed spec fn view(&self) -> CommentBufferView {
        CommentBufferView {
            threads: self.threads@,
            collapsed: self.collapsed@,
            line_map: entries(self.line_map@),
            chain: self.pr_chain,
        }
    }
}

impl CommentBuffer {
    /// A buffer for the threads, not rendered yet, nothing collapsed, without a chain.
    pub fn new(threads: Vec<CommentThread>) -> (b: Self)
        ensures
            b@.threads == threads@,
            b@.collapsed == Set::<usize>::empty(),
            b@.line_map == Seq::<(int, int, int, bool)>::empty(),
            b@.chain.is_none(),
    {
        let b = CommentBuffer {
            threads,
            collapsed: HashSet::new(),
            line_map: Vec::new(),
            pr_chain: None,
        };
        assert(entries(b.line_map@) =~= Seq::<(int, int, int, bool)>::empty());
        b
    }

    /// The chain shown above the threads.
    pub fn set_chain(&mut self, chain: Option<PrChain>)
        ensures
            final(self)@.chain == chain,
            final(self)@.threads == old(self)@.threads,
            final(self)@.collapsed == old(self)@.collapsed,
            final(self)@.line_map == old(self)@.line_map,
    {
        self.pr_chain = chain;
    }

    /// The threads shown.
    pub fn threads(&self) -> (t: &[CommentThread])
        ensures
            t@ == self@.threads,
    {
        self.threads.as_slice()
    }

    /// Whether thread `index` is collapsed.
    pub fn is_collapsed(&self, index: usize) -> (b: bool)
        ensures
            b == self@.collapsed.contains(index),
    {
        self.collapsed.contains(&index)
    }

    /// Collapses an expanded thread and expands a collapsed one.
    pub fn toggle_collapse(&mut self, index: usize)
        ensures
            final(self)@.collapsed == flipped(old(self)@.collapsed, index),
            final(self)@.threads == old(self)@.threads,
            final(self)@.line_map == old(self)@.line_map,
            final(self)@.chain == old(self)@.chain,
    {
        if self.collapsed.contains(&index) {
            self.collapsed.remove(&index);
        } else {
            self.collapsed.insert(index);
        }
    }

    /// Collapses every resolved thread.
    pub fn initialize_collapsed(&mut self)
        ensures
            final(self)@.collapsed == old(self)@.collapsed.union(
                Set::new(|i: usize| i < old(self)@.threads.len() && old(self)@.threads[i as int].is_resolved),
            ),
            final(self)@.threads == old(self)@.threads,
            final(self)@.line_map == old(self)@.line_map,
            final(self)@.chain == old(self)@.chain,
    {
        let n = self.threads.len();
        let mut index: usize = 0;
        while index < n
            invariant
                n == self.threads@.len(),
                index <= n,
                self@.threads == old(self)@.threads,
                self@.line_map == old(self)@.line_map,
                self@.chain == old(self)@.chain,
                self.collapsed@ == old(self)@.collapsed.union(
                    Set::new(|i: usize| i < index && old(self)@.threads[i as int].is_resolved),
                ),
            decreases n - index,
        {
            if self.threads[index].is_resolved {
                self.collapsed.insert(index);
            }
            assert(self.collapsed@ =~= old(self)@.collapsed.union(
                Set::new(|i: usize| i < index + 1 && old(self)@.threads[i as int].is_resolved),
            ));
            index = index + 1;
        }
        assert(self.collapsed@ =~= old(self)@.collapsed.union(
            Set::new(|i: usize| i < old(self)@.threads.len() && old(self)@.threads[i as int].is_resolved),
        ));
    }

    /// Collapses or expands thread `index`.
    pub fn set_collapsed(&mut self, index: usize, collapsed: bool)
        ensures
            final(self)@.collapsed == if collapsed {
                old(self)@.collapsed.insert(index)
            } else {
                old(self)@.collapsed.remove(index)
            },
            final(self)@.threads == old(self)@.threads,
            final(self)@.line_map == old(self)@.line_map,
            final(self)@.chain == old(self)@.chain,
    {
        if collapsed {
            self.collapsed.insert(index);
        } else {
            self.collapsed.remove(&index);
        }
    }

    /// Marks thread `index` resolved or not; nothing changes when there is no such thread.
    pub fn set_thread_resolved(&mut self, index: usize, is_resolved: bool)
        ensures
            index < old(self)@.threads.len() ==> final(self)@.threads == old(self)@.threads.update(
                index as int,
                CommentThread { is_resolved, ..old(self)@.threads[index as int] },
            ),
            index >= old(self)@.threads.len() ==> final(self)@.threads == old(self)@.threads,
            final(self)@.collapsed == old(self)@.collapsed,
            final(self)@.line_map == old(self)@.line_map,
            final(self)@.chain == old(self)@.chain,
    {
        if index < self.threads.len() {
            let mut thread = self.threads.remove(index);
            thread.is_resolved = is_resolved;
            self.threads.insert(index, thread);
        }
    }

    /// The thread shown at a (0-based) line of the last rendering.
    pub fn line_to_thread_index(&self, line: usize) -> (r: Option<usize>)
        ensures
            match r {
                Some(i) => thread_at_line(self@.line_map, line as int) == Some(i as int),
                None => thread_at_line(self@.line_map, line as int).is_none(),
            },
    {
        let n = self.line_map.len();
        let mut k: usize = 0;
        assert(self@.line_map.skip(0) =~= self@.line_map);
        while k < n
            invariant
                n == self.line_map@.len(),
                k <= n,
                thread_at_line(self@.line_map, line as int) == thread_at_line(
                    self@.line_map.skip(k as int),
                    line as int,
                ),
            decreases n - k,
        {
            let (start, end, idx, _) = self.line_map[k];
            assert(self@.line_map.skip(k as int).drop_first() =~= self@.line_map.skip(k + 1));
            assert(self@.line_map.skip(k as int)[0] == self@.line_map[k as int]);
            if line >= start && line < end {
                return Some(idx);
            }
            k = k + 1;
        }
        assert(self@.line_map.skip(n as int) =~= Seq::<(int, int, int, bool)>::empty());
        None
    }

    /// The first line (0-based) of thread `index` in the last rendering.
    pub fn line_for_thread(&self, index: usize) -> (r: Option<usize>)
        ensures
            match r {
                Some(l) => thread_start_line(self@.line_map, index as int) == Some(l as int),
                None => thread_start_line(self@.line_map, index as int).is_none(),
            },
    {
        let n = self.line_map.len();
        let mut k: usize = 0;
        assert(self@.line_map.skip(0) =~= self@.line_map);
        while k < n
            invariant
                n == self.line_map@.len(),
                k <= n,
                thread_start_line(self@.line_map, index as int) == thread_start_line(
                    self@.line_map.skip(k as int),
                    index as int,
                ),
            decreases n - k,
        {
            let (start, _end, idx, is_reply) = self.line_map[k];
            assert(self@.line_map.skip(k as int).drop_first() =~= self@.line_map.skip(k + 1));
            assert(self@.line_map.skip(k as int)[0] == self@.line_map[k as int]);
            if idx == index && !is_reply {
                return Some(start);
            }
            k = k + 1;
        }
        assert(self@.line_map.skip(n as int) =~= Seq::<(int, int, int, bool)>::empty());
        None
    }

    /// Renders the threads as seen at time `now` and records the line map.
    pub fn render(&mut self, now: UtcTime) -> (lines: Vec<String>)
        ensures
            views(lines@) == rendered_comments(
                old(self)@.threads,
                old(self)@.collapsed,
                old(self)@.chain,
                now,
            ).0,
            final(self)@.line_map == rendered_comments(
                old(self)@.threads,
                old(self)@.collapsed,
                old(self)@.chain,
                now,
            ).1,
            final(self)@.threads == old(self)@.threads,
            final(self)@.collapsed == old(self)@.collapsed,
            final(self)@.chain == old(self)@.chain,
    {
        proof {
            reveal_strlit("");
            assert(""@ =~= Seq::<char>::empty());
        }
        let header = render_chain_header(&self.pr_chain);
        let ghost hdr = views(header@);
        if self.threads.len() == 0 {
            let mut result = header;
            let r1 = rule('━');
            let t1 = String::from_str("No comments yet.");
            let t2 = String::from_str("Comments will appear here when available.");
            let r2 = rule('━');
            let ghost h0 = result@;
            result.push(r1);
            let ghost h1 = result@;
            result.push(t1);
            let ghost h2 = result@;
            result.push(t2);
            let ghost h3 = result@;
            result.push(r2);
            proof {
                lemma_views_push(h0, r1);
                lemma_views_push(h1, t1);
                lemma_views_push(h2, t2);
                lemma_views_push(h3, r2);
            }
            self.line_map = Vec::new();
            assert(views(result@) =~= rendered_comments(
                old(self)@.threads,
                old(self)@.collapsed,
                old(self)@.chain,
                now,
            ).0);
            assert(entries(self.line_map@) =~= Seq::<(int, int, int, bool)>::empty());
            return result;
        }
        let ghost ts = self@.threads;
        let ghost col = self@.collapsed;
        let mut all_lines = header;
        let mut map: Vec<LineEntry> = Vec::new();
        let n = self.threads.len();
        let mut index: usize = 0;
        assert(entries(map@) =~= Seq::<(int, int, int, bool)>::empty());
        while index < n
            invariant
                n == ts.len(),
                index <= n,
                self@.threads == ts,
                self@.collapsed == col,
                self@.chain == old(self)@.chain,
                self@.threads == old(self)@.threads,
                self@.collapsed == old(self)@.collapsed,
                ""@ == Seq::<char>::empty(),
                views(all_lines@) == layout(ts, col, now, hdr, index as int).0,
                entries(map@) == layout(ts, col, now, hdr, index as int).1,
            decreases n - index,
        {
            let thread = &self.threads[index];
            let is_collapsed = self.collapsed.contains(&index);
            let ghost blocks = thread_blocks(*thread, is_collapsed, now);
            let ghost prev = layout(ts, col, now, hdr, index as int);
            let root_lines = render_comment_lines_with_prefix(
                &thread.root,
                "",
                thread.is_resolved,
                now,
            );
            let start = all_lines.len();
            let ghost before = all_lines@;
            let mut root_lines = root_lines;
            let ghost root_view = root_lines@;
            all_lines.append(&mut root_lines);
            let end = all_lines.len();
            let ghost map_before = map@;
            map.push((start, end, index, false));
            proof {
                lemma_views_add(before, root_view);
                assert(blocks[0] == comment_block(thread.root, Seq::empty(), thread.is_resolved, now));
                assert(blocks[0] == views(root_view));
                assert(entries(map@) =~= entries(map_before).push(
                    (start as int, end as int, index as int, false),
                ));
                assert(place_blocks(prev.0, prev.1, blocks, index as int, 0) == prev);
                assert(views(all_lines@) == place_blocks(prev.0, prev.1, blocks, index as int, 1).0);
                assert(entries(map@) == place_blocks(prev.0, prev.1, blocks, index as int, 1).1);
            }
            if !is_collapsed {
                let m = thread.replies.len();
                let mut r: usize = 0;
                while r < m
                    invariant
                        m == thread.replies@.len(),
                        r <= m,
                        !is_collapsed,
                        blocks == thread_blocks(*thread, is_collapsed, now),
                        views(all_lines@) == place_blocks(
                            prev.0,
                            prev.1,
                            blocks,
                            index as int,
                            r + 1,
                        ).0,
                        entries(map@) == place_blocks(
                            prev.0,
                            prev.1,
                            blocks,
                            index as int,
                            r + 1,
                        ).1,
                    decreases m - r,
                {
                    let reply_lines = render_comment_lines_with_prefix(
                        &thread.replies[r],
                        "└─",
                        false,
                        now,
                    );
                    let start = all_lines.len();
                    let ghost before = all_lines@;
                    let mut reply_lines = reply_lines;
                    let ghost reply_view = reply_lines@;
                    all_lines.append(&mut reply_lines);
                    let end = all_lines.len();
                    let ghost map_before = map@;
                    map.push((start, end, index, true));
                    proof {
                        lemma_views_add(before, reply_view);
                        assert(blocks[r + 1] == views(reply_view));
                        assert(entries(map@) =~= entries(map_before).push(
                            (start as int, end as int, index as int, true),
                        ));
                    }
                    r = r + 1;
                }
            }
            assert(views(all_lines@) == layout(ts, col, now, hdr, index + 1).0);
            assert(entries(map@) == layout(ts, col, now, hdr, index + 1).1);
            index = index + 1;
        }
        self.line_map = map;
        all_lines
    }

}


/// Entries in order: each ends no later than the next starts, thread indices never go
/// down, every entry holds at least one line and none goes past `len` lines.
pub open spec fn ordered_map(map: Seq<(int, int, int, bool)>, len: int) -> bool {
    &&& forall|a: int, b: int|
        0 <= a < b < map.len() ==> #[trigger] map[a].1 <= #[trigger] map[b].0 && map[a].2 <= map[b].2
    &&& forall|a: int| 0 <= a < map.len() ==> (#[trigger] map[a]).0 < map[a].1 && map[a].1 <= len
    &&& forall|a: int| 0 <= a < map.len() ==> 0 <= (#[trigger] map[a]).2
}

/// Thread `i` has a root entry, and every entry before it is of an earlier thread.
pub open spec fn has_root_entry(map: Seq<(int, int, int, bool)>, i: int) -> bool {
    exists|j: int|
        0 <= j < map.len() && #[trigger] map[j].2 == i && !map[j].3 && forall|a: int|
            0 <= a < j ==> #[trigger] map[a].2 < i
}

proof fn lemma_thread_at_line(map: Seq<(int, int, int, bool)>, len: int, j: int, line: int)
    requires
        ordered_map(map, len),
        0 <= j < map.len(),
        map[j].0 <= line < map[j].1,
    ensures
        thread_at_line(map, line) == Some(map[j].2),
    decreases map.len(),
{
    if j > 0 {
        let t = map.drop_first();
        assert(map[0].1 <= map[j].0);
        assert forall|a: int, b: int| 0 <= a < b < t.len() implies #[trigger] t[a].1 <= #[trigger] t[b].0
            && t[a].2 <= t[b].2 by {
            assert(t[a] == map[a + 1] && t[b] == map[b + 1]);
        }
        assert forall|a: int| 0 <= a < t.len() implies #[trigger] t[a].0 < t[a].1 <= len by {
            assert(t[a] == map[a + 1]);
        }
        assert forall|a: int| 0 <= a < t.len() implies 0 <= #[trigger] t[a].2 by {
            assert(t[a] == map[a + 1]);
        }
        lemma_thread_at_line(t, len, j - 1, line);
    }
}

proof fn lemma_thread_start_line(map: Seq<(int, int, int, bool)>, i: int, j: int)
    requires
        0 <= j < map.len(),
        map[j].2 == i,
        !map[j].3,
        forall|a: int| 0 <= a < j ==> #[trigger] map[a].2 < i,
    ensures
        thread_start_line(map, i) == Some(map[j].0),
    decreases map.len(),
{
    if j > 0 {
        let t = map.drop_first();
        assert(map[0].2 < i);
        assert forall|a: int| 0 <= a < j - 1 implies #[trigger] t[a].2 < i by {
            assert(t[a] == map[a + 1]);
        }
        lemma_thread_start_line(t, i, j - 1);
    }
}

/// What placing `m` blocks of thread `idx` after `lines` and `map` gives `p`.
pub open spec fn placed(
    lines: Seq<Seq<char>>,
    map: Seq<(int, int, int, bool)>,
    idx: int,
    m: int,
    p: (Seq<Seq<char>>, Seq<(int, int, int, bool)>),
) -> bool {
    &&& ordered_map(p.1, p.0.len() as int)
    &&& p.1.len() == map.len() + m
    &&& p.0.len() >= lines.len()
    &&& forall|a: int| 0 <= a < map.len() ==> #[trigger] p.1[a] == map[a]
    &&& forall|a: int| map.len() <= a < p.1.len() ==> #[trigger] p.1[a].2 == idx
    &&& forall|a: int| map.len() <= a < p.1.len() ==> lines.len() <= #[trigger] p.1[a].0
    &&& m > 0 ==> !p.1[map.len() as int].3
    &&& p.0.take(lines.len() as int) == lines
}

proof fn lemma_place_blocks(
    lines: Seq<Seq<char>>,
    map: Seq<(int, int, int, bool)>,
    blocks: Seq<Seq<Seq<char>>>,
    idx: int,
    m: int,
)
    requires
        0 <= m <= blocks.len(),
        0 <= idx,
        ordered_map(map, lines.len() as int),
        forall|a: int| 0 <= a < map.len() ==> #[trigger] map[a].2 < idx,
        forall|b: int| 0 <= b < blocks.len() ==> #[trigger] blocks[b].len() > 0,
    ensures
        placed(lines, map, idx, m, place_blocks(lines, map, blocks, idx, m)),
    decreases m,
{
    if m == 0 {
        assert(lines.take(lines.len() as int) =~= lines);
    } else {
        lemma_place_blocks(lines, map, blocks, idx, m - 1);
        let p = place_blocks(lines, map, blocks, idx, m - 1);
        let q = place_blocks(lines, map, blocks, idx, m);
        let b = blocks[m - 1];
        assert(q.0 == p.0 + b);
        assert(q.1 == p.1.push((p.0.len() as int, (p.0.len() + b.len()) as int, idx, m - 1 > 0)));
        assert(q.0.take(lines.len() as int) =~= lines) by {
            assert(q.0.take(lines.len() as int) =~= p.0.take(lines.len() as int));
        }
        let n = p.1.len();
        assert(ordered_map(p.1, p.0.len() as int));
        assert forall|a: int, c: int| 0 <= a < c < q.1.len() implies #[trigger] q.1[a].1
            <= #[trigger] q.1[c].0 && q.1[a].2 <= q.1[c].2 by {
            if c == n {
                assert(q.1[a] == p.1[a]);
                assert(p.1[a].0 < p.1[a].1 <= p.0.len());
                if a < map.len() {
                    assert(p.1[a] == map[a]);
                }
            } else {
                assert(q.1[a] == p.1[a] && q.1[c] == p.1[c]);
                assert(p.1[a].1 <= p.1[c].0 && p.1[a].2 <= p.1[c].2);
            }
        }
        assert forall|a: int| 0 <= a < q.1.len() implies #[trigger] q.1[a].0 < q.1[a].1 <= q.0.len() by {
            if a < n {
                assert(q.1[a] == p.1[a]);
            }
        }
        assert forall|a: int| 0 <= a < q.1.len() implies 0 <= #[trigger] q.1[a].2 by {
            if a < n {
                assert(q.1[a] == p.1[a]);
            }
        }
        assert forall|a: int| 0 <= a < map.len() implies #[trigger] q.1[a] == map[a] by {
            assert(q.1[a] == p.1[a]);
        }
        assert forall|a: int| map.len() <= a < q.1.len() implies #[trigger] q.1[a].2 == idx by {
            if a < n {
                assert(q.1[a] == p.1[a]);
            }
        }
        assert forall|a: int| map.len() <= a < q.1.len() implies lines.len() <= #[trigger] q.1[a].0 by {
            if a < n {
                assert(q.1[a] == p.1[a]);
            }
        }
        if m > 1 {
            assert(q.1[map.len() as int] == p.1[map.len() as int]);
        }
    }
}

proof fn lemma_layout(
    ts: Seq<CommentThread>,
    collapsed: Set<usize>,
    now: UtcTime,
    header: Seq<Seq<char>>,
    k: int,
)
    requires
        0 <= k <= ts.len(),
    ensures
        ({
            let p = layout(ts, collapsed, now, header, k);
            &&& ordered_map(p.1, p.0.len() as int)
            &&& forall|a: int| 0 <= a < p.1.len() ==> #[trigger] p.1[a].2 < k
            &&& forall|a: int| 0 <= a < p.1.len() ==> header.len() <= #[trigger] p.1[a].0
            &&& forall|i: int| 0 <= i < k ==> has_root_entry(p.1, i)
            &&& p.0.len() >= header.len()
        }),
    decreases k,
{
    if k > 0 {
        lemma_layout(ts, collapsed, now, header, k - 1);
        let p = layout(ts, collapsed, now, header, k - 1);
        let t = ts[k - 1];
        let blocks = thread_blocks(t, collapsed.contains((k - 1) as usize), now);
        assert forall|b: int| 0 <= b < blocks.len() implies #[trigger] blocks[b].len() > 0 by {
            if b == 0 {
                lemma_comment_block_len(t.root, Seq::empty(), t.is_resolved, now);
            } else {
                lemma_comment_block_len(t.replies@[b - 1], "└─"@, false, now);
            }
        }
        lemma_place_blocks(p.0, p.1, blocks, k - 1, blocks.len() as int);
        let q = place_blocks(p.0, p.1, blocks, k - 1, blocks.len() as int);
        assert(q == layout(ts, collapsed, now, header, k));
        assert forall|a: int| 0 <= a < q.1.len() implies #[trigger] q.1[a].2 < k by {
            if a < p.1.len() {
                assert(q.1[a] == p.1[a]);
            }
        }
        assert forall|a: int| 0 <= a < q.1.len() implies header.len() <= #[trigger] q.1[a].0 by {
            if a < p.1.len() {
                assert(q.1[a] == p.1[a]);
            }
        }
        assert forall|i: int| 0 <= i < k implies has_root_entry(q.1, i) by {
            if i < k - 1 {
                assert(has_root_entry(p.1, i));
                let j = choose|j: int|
                    0 <= j < p.1.len() && #[trigger] p.1[j].2 == i && !p.1[j].3 && forall|a: int|
                        0 <= a < j ==> #[trigger] p.1[a].2 < i;
                assert(q.1[j] == p.1[j]);
                assert forall|a: int| 0 <= a < j implies #[trigger] q.1[a].2 < i by {
                    assert(q.1[a] == p.1[a]);
                }
            } else {
                let j = p.1.len() as int;
                assert(q.1[j].2 == i && !q.1[j].3);
                assert forall|a: int| 0 <= a < j implies #[trigger] q.1[a].2 < i by {
                    assert(q.1[a] == p.1[a]);
                }
            }
        }
    }
}

/// Moving the cursor to the first line of a thread and reading back the thread at the
/// cursor gives that thread: in every rendering, each thread has a first line, and the
/// line map finds the thread there.
pub proof fn lemma_thread_start_line_round_trip(
    ts: Seq<CommentThread>,
    collapsed: Set<usize>,
    chain: Option<PrChain>,
    now: UtcTime,
    i: int,
)
    requires
        0 <= i < ts.len(),
    ensures
        ({
            let map = rendered_comments(ts, collapsed, chain, now).1;
            &&& thread_start_line(map, i) is Some
            &&& thread_at_line(map, thread_start_line(map, i)->0) == Some(i)
        }),
{
    let hdr = chain_header_lines(chain);
    lemma_layout(ts, collapsed, now, hdr, ts.len() as int);
    let p = layout(ts, collapsed, now, hdr, ts.len() as int);
    assert(has_root_entry(p.1, i));
    let j = choose|j: int|
        0 <= j < p.1.len() && #[trigger] p.1[j].2 == i && !p.1[j].3 && forall|a: int|
            0 <= a < j ==> #[trigger] p.1[a].2 < i;
    lemma_thread_start_line(p.1, i, j);
    lemma_thread_at_line(p.1, p.0.len() as int, j, p.1[j].0);
}

/// The line map of a rendering covers only lines of the rendering, after the chain header,
/// and names only threads that exist.
pub proof fn lemma_line_map_in_bounds(
    ts: Seq<CommentThread>,
    collapsed: Set<usize>,
    chain: Option<PrChain>,
    now: UtcTime,
)
    ensures
        ({
            let r = rendered_comments(ts, collapsed, chain, now);
            forall|a: int|
                0 <= a < r.1.len() ==> {
                    &&& chain_header_lines(chain).len() <= #[trigger] r.1[a].0
                    &&& r.1[a].0 < r.1[a].1 <= r.0.len()
                    &&& 0 <= r.1[a].2 < ts.len()
                }
        }),
{
    if ts.len() > 0 {
        lemma_layout(ts, collapsed, now, chain_header_lines(chain), ts.len() as int);
    }
}

/// The thread found at a line is one that an entry of the line map names.
pub proof fn lemma_thread_at_line_names_entry(map: Seq<(int, int, int, bool)>, line: int)
    ensures
        thread_at_line(map, line) matches Some(i) ==> exists|a: int|
            0 <= a < map.len() && #[trigger] map[a].2 == i,
    decreases map.len(),
{
    if map.len() > 0 {
        if map[0].0 <= line < map[0].1 {
            assert(map[0].2 == map[0].2);
        } else {
            let t = map.drop_first();
            lemma_thread_at_line_names_entry(t, line);
            if let Some(i) = thread_at_line(t, line) {
                let a = choose|a: int| 0 <= a < t.len() && #[trigger] t[a].2 == i;
                assert(map[a + 1].2 == i);
            }
        }
    }
}

// ---------------------------------------------------------------------------
// Where each thread stands in a rendering
// ---------------------------------------------------------------------------

/// The number of lines of a sequence of blocks.
pub open spec fn blocks_len(bs: Seq<Seq<Seq<char>>>) -> int
    decreases bs.len(),
{
    if bs.len() == 0 {
        0
    } else {
        blocks_len(bs.drop_last()) + bs.last().len()
    }
}

/// The number of lines thread `t` takes: its root block and, unless it is collapsed, its
/// reply blocks.
pub open spec fn thread_height(t: CommentThread, collapsed: bool, now: UtcTime) -> int {
    blocks_len(thread_blocks(t, collapsed, now))
}

/// The number of lines the first `k` threads take.
pub open spec fn threads_height(ts: Seq<CommentThread>, collapsed: Set<usize>, now: UtcTime, k: int) -> int
    decreases k,
{
    if k <= 0 {
        0
    } else {
        threads_height(ts, collapsed, now, k - 1) + thread_height(
            ts[k - 1],
            collapsed.contains((k - 1) as usize),
            now,
        )
    }
}

proof fn lemma_blocks_len_prefix(bs: Seq<Seq<Seq<char>>>, m: int)
    requires
        0 <= m <= bs.len(),
        forall|b: int| 0 <= b < bs.len() ==> #[trigger] bs[b].len() > 0,
    ensures
        0 <= blocks_len(bs.take(m)) <= blocks_len(bs),
        m < bs.len() ==> blocks_len(bs.take(m + 1)) == blocks_len(bs.take(m)) + bs[m].len(),
    decreases bs.len() - m,
{
    lemma_blocks_len_nonneg(bs.take(m));
    if m < bs.len() {
        assert(bs.take(m + 1).drop_last() =~= bs.take(m));
        assert(bs.take(m + 1).last() == bs[m]);
        lemma_blocks_len_prefix(bs, m + 1);
    } else {
        assert(bs.take(m) =~= bs);
        lemma_blocks_len_nonneg(bs);
    }
}

proof fn lemma_blocks_len_nonneg(bs: Seq<Seq<Seq<char>>>)
    ensures
        blocks_len(bs) >= 0,
    decreases bs.len(),
{
    if bs.len() > 0 {
        lemma_blocks_len_nonneg(bs.drop_last());
    }
}

proof fn lemma_thread_blocks_nonempty(t: CommentThread, collapsed: bool, now: UtcTime)
    ensures
        forall|b: int| 0 <= b < thread_blocks(t, collapsed, now).len() ==> #[trigger] thread_blocks(
            t,
            collapsed,
            now,
        )[b].len() > 0,
        thread_blocks(t, collapsed, now).len() > 0,
        thread_height(t, collapsed, now) >= thread_blocks(t, collapsed, now)[0].len(),
{
    let bs = thread_blocks(t, collapsed, now);
    assert forall|b: int| 0 <= b < bs.len() implies #[trigger] bs[b].len() > 0 by {
        if b == 0 {
            lemma_comment_block_len(t.root, Seq::empty(), t.is_resolved, now);
        } else {
            lemma_comment_block_len(t.replies@[b - 1], "└─"@, false, now);
        }
    }
    lemma_blocks_len_prefix(bs, 1);
    lemma_blocks_len_prefix(bs, 0);
    assert(bs.take(0).len() == 0);
}

/// Where placing blocks puts each entry: block `b` right after the blocks before it.
proof fn lemma_place_geometry(
    lines: Seq<Seq<char>>,
    map: Seq<(int, int, int, bool)>,
    blocks: Seq<Seq<Seq<char>>>,
    idx: int,
    m: int,
)
    requires
        0 <= m <= blocks.len(),
        forall|b: int| 0 <= b < blocks.len() ==> #[trigger] blocks[b].len() > 0,
    ensures
        ({
            let p = place_blocks(lines, map, blocks, idx, m);
            &&& p.0.len() == lines.len() + blocks_len(blocks.take(m))
            &&& p.1.len() == map.len() + m
            &&& forall|a: int| 0 <= a < map.len() ==> #[trigger] p.1[a] == map[a]
            &&& forall|a: int|
                map.len() <= a < p.1.len() ==> #[trigger] p.1[a] == (
                    lines.len() + blocks_len(blocks.take(a - map.len())),
                    lines.len() + blocks_len(blocks.take(a - map.len() + 1)),
                    idx,
                    a - map.len() > 0,
                )
        }),
    decreases m,
{
    if m == 0 {
        assert(blocks.take(0).len() == 0);
    } else {
        lemma_place_geometry(lines, map, blocks, idx, m - 1);
        lemma_blocks_len_prefix(blocks, m - 1);
        let p = place_blocks(lines, map, blocks, idx, m - 1);
        let q = place_blocks(lines, map, blocks, idx, m);
        assert forall|a: int| 0 <= a < map.len() implies #[trigger] q.1[a] == map[a] by {
            assert(q.1[a] == p.1[a]);
        }
        assert forall|a: int| map.len() <= a < q.1.len() implies #[trigger] q.1[a] == (
            lines.len() + blocks_len(blocks.take(a - map.len())),
            lines.len() + blocks_len(blocks.take(a - map.len() + 1)),
            idx,
            a - map.len() > 0,
        ) by {
            if a < p.1.len() {
                assert(q.1[a] == p.1[a]);
            }
        }
    }
}

/// The entries of a layout lie in the lines of their own thread, after `h` header lines.
pub open spec fn geo_bounds(
    ts: Seq<CommentThread>,
    collapsed: Set<usize>,
    now: UtcTime,
    h: int,
    k: int,
    map: Seq<(int, int, int, bool)>,
) -> bool {
    forall|a: int|
        0 <= a < map.len() ==> {
            &&& 0 <= (#[trigger] map[a]).2 < k
            &&& h + threads_height(ts, collapsed, now, map[a].2) <= map[a].0
            &&& map[a].0 < map[a].1
            &&& map[a].1 <= h + threads_height(ts, collapsed, now, map[a].2 + 1)
        }
}

/// The entries follow each other without gaps, from line `h` to line `end`.
pub open spec fn geo_contiguous(map: Seq<(int, int, int, bool)>, h: int, end: int) -> bool {
    &&& map.len() > 0 ==> map[0].0 == h && map[map.len() - 1].1 == end
    &&& map.len() == 0 ==> end == h
    &&& forall|a: int| 0 <= a < map.len() - 1 ==> #[trigger] map[a].1 == map[a + 1].0
}

/// Thread `i` has a root entry that starts after the lines of the threads before it, and
/// every entry before that one is of an earlier thread.
pub open spec fn root_entry_at(
    map: Seq<(int, int, int, bool)>,
    ts: Seq<CommentThread>,
    collapsed: Set<usize>,
    now: UtcTime,
    h: int,
    i: int,
) -> bool {
    exists|j: int|
        0 <= j < map.len() && #[trigger] map[j].2 == i && !map[j].3 && map[j].0 == h
            + threads_height(ts, collapsed, now, i) && forall|a: int|
            0 <= a < j ==> #[trigger] map[a].2 < i
}

/// What the layout of the first `k` threads is made of: `h` header lines, then the blocks of
/// each thread, its entries lying in its own lines and following each other without gaps.
pub open spec fn layout_geometry(
    ts: Seq<CommentThread>,
    collapsed: Set<usize>,
    now: UtcTime,
    h: int,
    k: int,
    p: (Seq<Seq<char>>, Seq<(int, int, int, bool)>),
) -> bool {
    &&& p.0.len() == h + threads_height(ts, collapsed, now, k)
    &&& geo_bounds(ts, collapsed, now, h, k, p.1)
    &&& geo_contiguous(p.1, h, p.0.len() as int)
    &&& forall|i: int| 0 <= i < k ==> #[trigger] root_entry_at(p.1, ts, collapsed, now, h, i)
}

/// How placing the blocks of thread `idx` after `lines` and `map` sets the new entries.
pub open spec fn placed_at(
    lines_len: int,
    map: Seq<(int, int, int, bool)>,
    blocks: Seq<Seq<Seq<char>>>,
    idx: int,
    q: Seq<(int, int, int, bool)>,
) -> bool {
    &&& q.len() == map.len() + blocks.len()
    &&& forall|a: int| 0 <= a < map.len() ==> #[trigger] q[a] == map[a]
    &&& forall|a: int|
        map.len() <= a < q.len() ==> #[trigger] q[a] == (
            lines_len + blocks_len(blocks.take(a - map.len())),
            lines_len + blocks_len(blocks.take(a - map.len() + 1)),
            idx,
            a - map.len() > 0,
        )
}

proof fn lemma_threads_height_monotone(ts: Seq<CommentThread>, collapsed: Set<usize>, now: UtcTime, i: int, j: int)
    requires
        0 <= i <= j <= ts.len(),
    ensures
        threads_height(ts, collapsed, now, i) <= threads_height(ts, collapsed, now, j),
        i < j ==> threads_height(ts, collapsed, now, i) + 6 <= threads_height(ts, collapsed, now, j),
        threads_height(ts, collapsed, now, i) >= 0,
    decreases j - i,
{
    if i < j {
        lemma_threads_height_monotone(ts, collapsed, now, i, j - 1);
        let t = ts[j - 1];
        let c = collapsed.contains((j - 1) as usize);
        lemma_thread_blocks_nonempty(t, c, now);
        lemma_comment_block_len(t.root, Seq::empty(), t.is_resolved, now);
    } else {
        lemma_threads_height_nonneg(ts, collapsed, now, i);
    }
}

proof fn lemma_threads_height_nonneg(ts: Seq<CommentThread>, collapsed: Set<usize>, now: UtcTime, k: int)
    requires
        0 <= k <= ts.len(),
    ensures
        threads_height(ts, collapsed, now, k) >= 0,
    decreases k,
{
    if k > 0 {
        lemma_threads_height_nonneg(ts, collapsed, now, k - 1);
        lemma_thread_blocks_nonempty(ts[k - 1], collapsed.contains((k - 1) as usize), now);
    }
}

proof fn lemma_step_bounds(
    ts: Seq<CommentThread>,
    collapsed: Set<usize>,
    now: UtcTime,
    h: int,
    k: int,
    map: Seq<(int, int, int, bool)>,
    blocks: Seq<Seq<Seq<char>>>,
    q: Seq<(int, int, int, bool)>,
)
    requires
        1 <= k <= ts.len(),
        geo_bounds(ts, collapsed, now, h, k - 1, map),
        placed_at(h + threads_height(ts, collapsed, now, k - 1), map, blocks, k - 1, q),
        forall|b: int| 0 <= b < blocks.len() ==> #[trigger] blocks[b].len() > 0,
        threads_height(ts, collapsed, now, k) == threads_height(ts, collapsed, now, k - 1)
            + blocks_len(blocks),
    ensures
        geo_bounds(ts, collapsed, now, h, k, q),
{
    let n = map.len();
    assert forall|a: int| 0 <= a < q.len() implies {
        &&& 0 <= (#[trigger] q[a]).2 < k
        &&& h + threads_height(ts, collapsed, now, q[a].2) <= q[a].0
        &&& q[a].0 < q[a].1
        &&& q[a].1 <= h + threads_height(ts, collapsed, now, q[a].2 + 1)
    } by {
        if a < n {
            assert(q[a] == map[a]);
        } else {
            lemma_blocks_len_prefix(blocks, a - n);
            lemma_blocks_len_prefix(blocks, a - n + 1);
        }
    }
}

proof fn lemma_step_contiguous(
    h: int,
    lines_len: int,
    map: Seq<(int, int, int, bool)>,
    blocks: Seq<Seq<Seq<char>>>,
    idx: int,
    q: Seq<(int, int, int, bool)>,
)
    requires
        geo_contiguous(map, h, lines_len),
        placed_at(lines_len, map, blocks, idx, q),
        blocks.len() > 0,
        forall|b: int| 0 <= b < blocks.len() ==> #[trigger] blocks[b].len() > 0,
    ensures
        geo_contiguous(q, h, lines_len + blocks_len(blocks)),
{
    let n = map.len();
    assert(blocks.take(0).len() == 0);
    assert(blocks.take(blocks.len() as int) =~= blocks);
    assert forall|a: int| 0 <= a < q.len() - 1 implies #[trigger] q[a].1 == q[a + 1].0 by {
        if a + 1 < n {
            assert(q[a] == map[a]);
            assert(q[a + 1] == map[a + 1]);
        } else if a + 1 == n {
            assert(q[a] == map[a]);
        }
    }
    if n > 0 {
        assert(q[0] == map[0]);
    }
}

proof fn lemma_step_roots(
    ts: Seq<CommentThread>,
    collapsed: Set<usize>,
    now: UtcTime,
    h: int,
    k: int,
    map: Seq<(int, int, int, bool)>,
    blocks: Seq<Seq<Seq<char>>>,
    q: Seq<(int, int, int, bool)>,
)
    requires
        1 <= k,
        geo_bounds(ts, collapsed, now, h, k - 1, map),
        forall|i: int| 0 <= i < k - 1 ==> #[trigger] root_entry_at(map, ts, collapsed, now, h, i),
        placed_at(h + threads_height(ts, collapsed, now, k - 1), map, blocks, k - 1, q),
        blocks.len() > 0,
    ensures
        forall|i: int| 0 <= i < k ==> #[trigger] root_entry_at(q, ts, collapsed, now, h, i),
{
    let n = map.len();
    assert forall|i: int| 0 <= i < k implies #[trigger] root_entry_at(q, ts, collapsed, now, h, i) by {
        if i < k - 1 {
            assert(root_entry_at(map, ts, collapsed, now, h, i));
            let j = choose|j: int|
                0 <= j < map.len() && #[trigger] map[j].2 == i && !map[j].3 && map[j].0 == h
                    + threads_height(ts, collapsed, now, i) && forall|a: int|
                    0 <= a < j ==> #[trigger] map[a].2 < i;
            assert(q[j] == map[j]);
            assert forall|a: int| 0 <= a < j implies #[trigger] q[a].2 < i by {
                assert(q[a] == map[a]);
            }
        } else {
            let j = n as int;
            assert(blocks.take(0).len() == 0);
            assert(q[j].2 == i && !q[j].3);
            assert forall|a: int| 0 <= a < j implies #[trigger] q[a].2 < i by {
                assert(q[a] == map[a]);
            }
        }
    }
}

proof fn lemma_layout_geometry(
    ts: Seq<CommentThread>,
    collapsed: Set<usize>,
    now: UtcTime,
    header: Seq<Seq<char>>,
    k: int,
)
    requires
        0 <= k <= ts.len(),
    ensures
        layout_geometry(ts, collapsed, now, header.len() as int, k, layout(ts, collapsed, now, header, k)),
    decreases k,
{
    let h = header.len() as int;
    if k > 0 {
        lemma_layout_geometry(ts, collapsed, now, header, k - 1);
        let p = layout(ts, collapsed, now, header, k - 1);
        let t = ts[k - 1];
        let c = collapsed.contains((k - 1) as usize);
        let bs = thread_blocks(t, c, now);
        let m = bs.len() as int;
        lemma_thread_blocks_nonempty(t, c, now);
        lemma_place_geometry(p.0, p.1, bs, k - 1, m);
        let q = layout(ts, collapsed, now, header, k);
        assert(q == place_blocks(p.0, p.1, bs, k - 1, m));
        assert(bs.take(m) =~= bs);
        assert(placed_at(p.0.len() as int, p.1, bs, k - 1, q.1));
        lemma_step_bounds(ts, collapsed, now, h, k, p.1, bs, q.1);
        lemma_step_contiguous(h, p.0.len() as int, p.1, bs, k - 1, q.1);
        lemma_step_roots(ts, collapsed, now, h, k, p.1, bs, q.1);
    } else {
        assert(threads_height(ts, collapsed, now, 0) == 0);
    }
}

proof fn lemma_contiguous_covers(map: Seq<(int, int, int, bool)>, h: int, end: int, line: int)
    requires
        geo_contiguous(map, h, end),
        forall|a: int| 0 <= a < map.len() ==> (#[trigger] map[a]).0 < map[a].1,
        h <= line < end,
    ensures
        exists|a: int| 0 <= a < map.len() && (#[trigger] map[a]).0 <= line < map[a].1,
    decreases map.len(),
{
    if line < map[0].1 {
        assert(map[0].0 <= line < map[0].1);
    } else {
        let t = map.drop_first();
        assert forall|a: int| 0 <= a < t.len() - 1 implies #[trigger] t[a].1 == t[a + 1].0 by {
            assert(t[a] == map[a + 1] && t[a + 1] == map[a + 2]);
        }
        assert forall|a: int| 0 <= a < t.len() implies (#[trigger] t[a]).0 < t[a].1 by {
            assert(t[a] == map[a + 1]);
        }
        assert(t.len() > 0) by {
            if map.len() == 1 {
                assert(map[0].1 == end);
            }
        }
        assert(t[0] == map[1]);
        assert(t[t.len() - 1] == map[map.len() - 1]);
        lemma_contiguous_covers(t, map[0].1, end, line);
        let a = choose|a: int| 0 <= a < t.len() && (#[trigger] t[a]).0 <= line < t[a].1;
        assert(map[a + 1] == t[a]);
    }
}

proof fn lemma_thread_at_line_none(map: Seq<(int, int, int, bool)>, line: int)
    requires
        forall|a: int| 0 <= a < map.len() ==> !((#[trigger] map[a]).0 <= line < map[a].1),
    ensures
        thread_at_line(map, line).is_none(),
    decreases map.len(),
{
    if map.len() > 0 {
        let t = map.drop_first();
        assert forall|a: int| 0 <= a < t.len() implies !((#[trigger] t[a]).0 <= line < t[a].1) by {
            assert(t[a] == map[a + 1]);
        }
        lemma_thread_at_line_none(t, line);
    }
}

proof fn lemma_thread_start_line_none(map: Seq<(int, int, int, bool)>, i: int)
    requires
        forall|a: int| 0 <= a < map.len() ==> (#[trigger] map[a]).2 != i,
    ensures
        thread_start_line(map, i).is_none(),
    decreases map.len(),
{
    if map.len() > 0 {
        let t = map.drop_first();
        assert forall|a: int| 0 <= a < t.len() implies (#[trigger] t[a]).2 != i by {
            assert(t[a] == map[a + 1]);
        }
        lemma_thread_start_line_none(t, i);
    }
}

/// Where the threads stand in a rendering: after the chain header come the lines of each
/// thread in turn, so the rendering has the header's lines and those of all threads, and
/// the first line of each thread follows the lines of the threads before it (a collapsed
/// thread takes only the lines of its root block). No other index has a first line.
pub proof fn lemma_thread_start_lines(
    ts: Seq<CommentThread>,
    collapsed: Set<usize>,
    chain: Option<PrChain>,
    now: UtcTime,
)
    ensures
        ({
            let r = rendered_comments(ts, collapsed, chain, now);
            let h = chain_header_lines(chain).len() as int;
            &&& ts.len() > 0 ==> r.0.len() == h + threads_height(ts, collapsed, now, ts.len() as int)
            &&& forall|i: int|
                0 <= i < ts.len() ==> #[trigger] thread_start_line(r.1, i) == Some(
                    h + threads_height(ts, collapsed, now, i),
                )
            &&& forall|i: int|
                (i < 0 || i >= ts.len()) ==> (#[trigger] thread_start_line(r.1, i)).is_none()
            &&& forall|i: int|
                0 <= i < ts.len() ==> #[trigger] threads_height(ts, collapsed, now, i + 1)
                    == threads_height(ts, collapsed, now, i) + thread_height(
                    ts[i],
                    collapsed.contains(i as usize),
                    now,
                )
        }),
{
    let r = rendered_comments(ts, collapsed, chain, now);
    let hdr = chain_header_lines(chain);
    let h = hdr.len() as int;
    let n = ts.len() as int;
    if n > 0 {
        lemma_layout_geometry(ts, collapsed, now, hdr, n);
        assert forall|i: int| 0 <= i < n implies #[trigger] thread_start_line(r.1, i) == Some(
            h + threads_height(ts, collapsed, now, i),
        ) by {
            assert(root_entry_at(r.1, ts, collapsed, now, h, i));
            let j = choose|j: int|
                0 <= j < r.1.len() && #[trigger] r.1[j].2 == i && !r.1[j].3 && r.1[j].0 == h
                    + threads_height(ts, collapsed, now, i) && forall|a: int|
                    0 <= a < j ==> #[trigger] r.1[a].2 < i;
            lemma_thread_start_line(r.1, i, j);
        }
    }
    assert forall|i: int| (i < 0 || i >= n) implies (#[trigger] thread_start_line(r.1, i)).is_none() by {
        if n > 0 {
            assert forall|a: int| 0 <= a < r.1.len() implies (#[trigger] r.1[a]).2 != i by {
                assert(0 <= r.1[a].2 < n);
            }
        }
        lemma_thread_start_line_none(r.1, i);
    }
}

/// The thread found at a line of a rendering is the thread whose lines hold it: a line in
/// the lines of thread `i` gives `i`, and a line of the chain header or past the last
/// thread gives none.
pub proof fn lemma_thread_at_line_ranges(
    ts: Seq<CommentThread>,
    collapsed: Set<usize>,
    chain: Option<PrChain>,
    now: UtcTime,
    line: int,
)
    ensures
        ({
            let map = rendered_comments(ts, collapsed, chain, now).1;
            let h = chain_header_lines(chain).len() as int;
            &&& forall|i: int|
                0 <= i < ts.len() && h + threads_height(ts, collapsed, now, i) <= line < h
                    + threads_height(ts, collapsed, now, i + 1) ==> #[trigger] thread_at_line(
                    map,
                    line,
                ) == Some(i)
            &&& (line < h || line >= h + threads_height(ts, collapsed, now, ts.len() as int))
                ==> thread_at_line(map, line).is_none()
        }),
{
    let r = rendered_comments(ts, collapsed, chain, now);
    let map = r.1;
    let hdr = chain_header_lines(chain);
    let h = hdr.len() as int;
    let n = ts.len() as int;
    if n == 0 {
        lemma_thread_at_line_none(map, line);
        return;
    }
    lemma_layout_geometry(ts, collapsed, now, hdr, n);
    lemma_layout(ts, collapsed, now, hdr, n);
    lemma_threads_height_monotone(ts, collapsed, now, 0, n);
    if h <= line < h + threads_height(ts, collapsed, now, n) {
        lemma_contiguous_covers(map, h, r.0.len() as int, line);
        let a = choose|a: int| 0 <= a < map.len() && (#[trigger] map[a]).0 <= line < map[a].1;
        let x = map[a].2;
        lemma_thread_at_line(map, r.0.len() as int, a, line);
        assert forall|i: int|
            0 <= i < n && h + threads_height(ts, collapsed, now, i) <= line < h + threads_height(
                ts,
                collapsed,
                now,
                i + 1,
            ) implies #[trigger] thread_at_line(map, line) == Some(i) by {
            if x < i {
                lemma_threads_height_monotone(ts, collapsed, now, x + 1, i);
            } else if x > i {
                lemma_threads_height_monotone(ts, collapsed, now, i + 1, x);
            }
        }
    } else {
        assert forall|a: int| 0 <= a < map.len() implies !((#[trigger] map[a]).0 <= line < map[a].1) by {
            lemma_threads_height_monotone(ts, collapsed, now, 0, map[a].2);
            lemma_threads_height_monotone(ts, collapsed, now, map[a].2 + 1, n);
        }
        lemma_thread_at_line_none(map, line);
        assert forall|i: int|
            0 <= i < n && h + threads_height(ts, collapsed, now, i) <= line < h + threads_height(
                ts,
                collapsed,
                now,
                i + 1,
            ) implies #[trigger] thread_at_line(map, line) == Some(i) by {
            lemma_threads_height_monotone(ts, collapsed, now, 0, i);
            lemma_threads_height_monotone(ts, collapsed, now, i + 1, n);
        }
    }
}

// ---------------------------------------------------------------------------
// What each thread shows in a rendering
// ---------------------------------------------------------------------------

/// The lines of the first `k` threads, one block after another.
pub open spec fn threads_lines(ts: Seq<CommentThread>, collapsed: Set<usize>, now: UtcTime, k: int) -> Seq<
    Seq<char>,
>
    decreases k,
{
    if k <= 0 {
        Seq::empty()
    } else {
        threads_lines(ts, collapsed, now, k - 1) + thread_blocks(
            ts[k - 1],
            collapsed.contains((k - 1) as usize),
            now,
        ).flatten()
    }
}

proof fn lemma_place_lines(
    lines: Seq<Seq<char>>,
    map: Seq<(int, int, int, bool)>,
    blocks: Seq<Seq<Seq<char>>>,
    idx: int,
    m: int,
)
    requires
        0 <= m <= blocks.len(),
    ensures
        place_blocks(lines, map, blocks, idx, m).0 == lines + blocks.take(m).flatten(),
    decreases m,
{
    if m == 0 {
        assert(blocks.take(0) =~= Seq::<Seq<Seq<char>>>::empty());
        assert(lines + Seq::<Seq<Seq<char>>>::empty().flatten() =~= lines);
    } else {
        lemma_place_lines(lines, map, blocks, idx, m - 1);
        assert(blocks.take(m) =~= blocks.take(m - 1).push(blocks[m - 1]));
        blocks.take(m - 1).lemma_flatten_push(blocks[m - 1]);
        assert(lines + blocks.take(m).flatten() =~= lines + blocks.take(m - 1).flatten()
            + blocks[m - 1]);
    }
}

proof fn lemma_blocks_len_flatten(bs: Seq<Seq<Seq<char>>>)
    ensures
        bs.flatten().len() == blocks_len(bs),
    decreases bs.len(),
{
    bs.lemma_flatten_and_flatten_alt_are_equivalent();
    if bs.len() > 0 {
        lemma_blocks_len_flatten(bs.drop_last());
        bs.drop_last().lemma_flatten_and_flatten_alt_are_equivalent();
    }
}

proof fn lemma_layout_lines(
    ts: Seq<CommentThread>,
    collapsed: Set<usize>,
    now: UtcTime,
    header: Seq<Seq<char>>,
    k: int,
)
    requires
        0 <= k <= ts.len(),
    ensures
        layout(ts, collapsed, now, header, k).0 == header + threads_lines(ts, collapsed, now, k),
        threads_lines(ts, collapsed, now, k).len() == threads_height(ts, collapsed, now, k),
    decreases k,
{
    if k == 0 {
        assert(header + Seq::<Seq<char>>::empty() =~= header);
    } else {
        lemma_layout_lines(ts, collapsed, now, header, k - 1);
        let p = layout(ts, collapsed, now, header, k - 1);
        let blocks = thread_blocks(ts[k - 1], collapsed.contains((k - 1) as usize), now);
        lemma_place_lines(p.0, p.1, blocks, k - 1, blocks.len() as int);
        assert(blocks.take(blocks.len() as int) =~= blocks);
        lemma_blocks_len_flatten(blocks);
        assert(header + threads_lines(ts, collapsed, now, k) =~= header + threads_lines(
            ts,
            collapsed,
            now,
            k - 1,
        ) + blocks.flatten());
    }
}

/// The lines of a thread begin with those of its root block.
proof fn lemma_thread_lines_begin_with_root(t: CommentThread, collapsed: bool, now: UtcTime)
    ensures
        ({
            let root = comment_block(t.root, Seq::empty(), t.is_resolved, now);
            let bs = thread_blocks(t, collapsed, now);
            &&& collapsed ==> bs.flatten() == root
            &&& !collapsed ==> bs.flatten() == root + bs.drop_first().flatten()
        }),
{
    let root = comment_block(t.root, Seq::empty(), t.is_resolved, now);
    let bs = thread_blocks(t, collapsed, now);
    seq![root].lemma_flatten_singleton();
    if !collapsed {
        assert(bs =~= seq![root] + bs.drop_first());
        vstd::seq_lib::lemma_flatten_concat(seq![root], bs.drop_first());
    }
}

proof fn lemma_threads_lines_prefix(
    ts: Seq<CommentThread>,
    collapsed: Set<usize>,
    now: UtcTime,
    i: int,
    k: int,
)
    requires
        0 <= i <= k <= ts.len(),
    ensures
        threads_lines(ts, collapsed, now, k).take(threads_lines(ts, collapsed, now, i).len() as int)
            == threads_lines(ts, collapsed, now, i),
        threads_lines(ts, collapsed, now, i).len() <= threads_lines(ts, collapsed, now, k).len(),
    decreases k - i,
{
    if i < k {
        lemma_threads_lines_prefix(ts, collapsed, now, i, k - 1);
        let a = threads_lines(ts, collapsed, now, k - 1);
        let b = threads_lines(ts, collapsed, now, i);
        assert(threads_lines(ts, collapsed, now, k).take(b.len() as int) =~= a.take(b.len() as int));
    } else {
        assert(threads_lines(ts, collapsed, now, k).take(threads_lines(ts, collapsed, now, i).len() as int)
            =~= threads_lines(ts, collapsed, now, i));
    }
}

/// Each thread's lines in a rendering begin with a heavy rule: the first line of thread
/// `i` in the line map (what `line_for_thread(i)` gives after rendering) is a heavy rule,
/// and it is the line after the chain header and the lines of the threads before it.
pub proof fn lemma_thread_starts_with_rule(
    ts: Seq<CommentThread>,
    collapsed: Set<usize>,
    chain: Option<PrChain>,
    now: UtcTime,
    i: int,
)
    requires
        0 <= i < ts.len(),
    ensures
        ({
            let r = rendered_comments(ts, collapsed, chain, now);
            let h = chain_header_lines(chain).len() as int;
            &&& thread_start_line(r.1, i) == Some(h + threads_height(ts, collapsed, now, i))
            &&& r.0[thread_start_line(r.1, i).unwrap()] == heavy_rule()
            &&& 0 <= thread_start_line(r.1, i).unwrap() < r.0.len()
        }),
{
    let hdr = chain_header_lines(chain);
    let h = hdr.len() as int;
    let n = ts.len() as int;
    let t = ts[i];
    let c = collapsed.contains(i as usize);
    let root = comment_block(t.root, Seq::empty(), t.is_resolved, now);
    lemma_thread_start_lines(ts, collapsed, chain, now);
    lemma_layout_lines(ts, collapsed, now, hdr, n);
    lemma_layout_lines(ts, collapsed, now, hdr, i);
    lemma_threads_lines_prefix(ts, collapsed, now, i + 1, n);
    lemma_thread_lines_begin_with_root(t, c, now);
    lemma_comment_block_len(t.root, Seq::empty(), t.is_resolved, now);
    let before = threads_lines(ts, collapsed, now, i);
    let upto = threads_lines(ts, collapsed, now, i + 1);
    let all = threads_lines(ts, collapsed, now, n);
    let th = threads_height(ts, collapsed, now, i);
    assert(upto[th] == root[0]);
    assert(root[0] =~= heavy_rule());
    assert(all[th] == all.take(upto.len() as int)[th]);
    assert((hdr + all)[h + th] == all[th]);
}

/// Collapsing an expanded thread removes exactly the lines of its replies: the rendering
/// afterwards is the earlier one up to the end of the thread's root block, followed by the
/// earlier one from the start of the next thread (or its end) on. The threads after it
/// then start right after its root block.
pub proof fn lemma_collapse_removes_replies(
    ts: Seq<CommentThread>,
    collapsed: Set<usize>,
    chain: Option<PrChain>,
    now: UtcTime,
    i: int,
)
    requires
        0 <= i < ts.len(),
        ts.len() <= usize::MAX,
        !collapsed.contains(i as usize),
    ensures
        ({
            let before = rendered_comments(ts, collapsed, chain, now).0;
            let after = rendered_comments(ts, flipped(collapsed, i as usize), chain, now).0;
            let h = chain_header_lines(chain).len() as int;
            let root_end = h + threads_height(ts, collapsed, now, i) + ts[i].root.spec_height();
            let next = h + threads_height(ts, collapsed, now, i + 1);
            &&& after == before.take(root_end) + before.skip(next)
            &&& h + threads_height(ts, flipped(collapsed, i as usize), now, i + 1) == root_end
        }),
{
    let hdr = chain_header_lines(chain);
    let h = hdr.len() as int;
    let n = ts.len() as int;
    let c2 = flipped(collapsed, i as usize);
    lemma_layout_lines(ts, collapsed, now, hdr, n);
    lemma_layout_lines(ts, c2, now, hdr, n);
    lemma_comment_block_len(ts[i].root, Seq::empty(), ts[i].is_resolved, now);
    let a = threads_height(ts, collapsed, now, i) + ts[i].root.spec_height();
    let b = threads_height(ts, collapsed, now, i + 1);
    lemma_collapse_lines(ts, collapsed, now, i, n);
    let t1 = threads_lines(ts, collapsed, now, n);
    let t2 = threads_lines(ts, c2, now, n);
    assert(t2 == t1.take(a) + t1.skip(b));
    assert(0 <= a <= b <= t1.len());
    assert(hdr + t2 =~= (hdr + t1).take(h + a) + (hdr + t1).skip(h + b));
    lemma_collapse_same_before(ts, collapsed, now, i, i);
    lemma_toggle_collapse_only_that(collapsed, i as usize, i as usize);
    let root_only = thread_blocks(ts[i], true, now);
    assert(root_only.drop_last() =~= Seq::<Seq<Seq<char>>>::empty());
    assert(blocks_len(root_only.drop_last()) == 0);
    assert(thread_height(ts[i], true, now) == ts[i].root.spec_height());
    assert(c2.contains(i as usize));
    assert(threads_height(ts, c2, now, i + 1) == threads_height(ts, c2, now, i) + thread_height(
        ts[i],
        true,
        now,
    ));
}

proof fn lemma_collapse_same_before(
    ts: Seq<CommentThread>,
    collapsed: Set<usize>,
    now: UtcTime,
    i: int,
    k: int,
)
    requires
        0 <= k <= i < ts.len(),
        ts.len() <= usize::MAX,
    ensures
        threads_lines(ts, flipped(collapsed, i as usize), now, k) == threads_lines(ts, collapsed, now, k),
        threads_height(ts, flipped(collapsed, i as usize), now, k) == threads_height(ts, collapsed, now, k),
    decreases k,
{
    if k > 0 {
        lemma_collapse_same_before(ts, collapsed, now, i, k - 1);
        lemma_toggle_collapse_only_that(collapsed, i as usize, (k - 1) as usize);
    }
}

proof fn lemma_collapse_lines(ts: Seq<CommentThread>, collapsed: Set<usize>, now: UtcTime, i: int, k: int)
    requires
        0 <= i < k <= ts.len(),
        ts.len() <= usize::MAX,
        !collapsed.contains(i as usize),
    ensures
        ({
            let t1 = threads_lines(ts, collapsed, now, k);
            let a = threads_height(ts, collapsed, now, i) + ts[i].root.spec_height();
            let b = threads_height(ts, collapsed, now, i + 1);
            &&& threads_lines(ts, flipped(collapsed, i as usize), now, k) == t1.take(a) + t1.skip(b)
            &&& 0 <= a <= b <= t1.len()
        }),
    decreases k,
{
    let c2 = flipped(collapsed, i as usize);
    let a = threads_height(ts, collapsed, now, i) + ts[i].root.spec_height();
    let b = threads_height(ts, collapsed, now, i + 1);
    let hdr = Seq::<Seq<char>>::empty();
    lemma_layout_lines(ts, collapsed, now, hdr, k);
    lemma_layout_lines(ts, collapsed, now, hdr, i);
    lemma_layout_lines(ts, collapsed, now, hdr, i + 1);
    lemma_threads_height_monotone(ts, collapsed, now, i + 1, k);
    lemma_threads_height_monotone(ts, collapsed, now, 0, i);
    lemma_thread_blocks_nonempty(ts[i], false, now);
    lemma_comment_block_len(ts[i].root, Seq::empty(), ts[i].is_resolved, now);
    let t1 = threads_lines(ts, collapsed, now, k);
    if k == i + 1 {
        lemma_collapse_same_before(ts, collapsed, now, i, i);
        lemma_toggle_collapse_only_that(collapsed, i as usize, i as usize);
        lemma_thread_lines_begin_with_root(ts[i], false, now);
        lemma_thread_lines_begin_with_root(ts[i], true, now);
        let before = threads_lines(ts, collapsed, now, i);
        let root = comment_block(ts[i].root, Seq::empty(), ts[i].is_resolved, now);
        assert(threads_lines(ts, c2, now, k) =~= before + root);
        assert(t1.take(a) =~= before + root);
        assert(t1.skip(b) =~= Seq::<Seq<char>>::empty());
        assert(threads_lines(ts, c2, now, k) =~= t1.take(a) + t1.skip(b));
    } else {
        lemma_collapse_lines(ts, collapsed, now, i, k - 1);
        lemma_toggle_collapse_only_that(collapsed, i as usize, (k - 1) as usize);
        lemma_layout_lines(ts, collapsed, now, hdr, k - 1);
        lemma_threads_height_monotone(ts, collapsed, now, i + 1, k - 1);
        let p1 = threads_lines(ts, collapsed, now, k - 1);
        let x = thread_blocks(ts[k - 1], collapsed.contains((k - 1) as usize), now).flatten();
        assert(t1 == p1 + x);
        assert(t1.take(a) =~= p1.take(a));
        assert(t1.skip(b) =~= p1.skip(b) + x);
        assert(threads_lines(ts, c2, now, k) =~= t1.take(a) + t1.skip(b));
    }
}

} // verus!
