//! The state of the plugin and the decisions taken on each command: which thread or suite is
//! selected, what a command does to the state, and what it asks the editor or GitHub to do.
//! The editor and the network stay outside; each command here takes the state and the
//! answers it needs, and returns what is to be done next.
pub mod editor;
pub mod messages;
pub mod signs;

pub use editor::{edit_body_from_lines, edit_lines, review_submit_command, thread_reply_command};
pub use messages::{chain_loaded_message, collapse_message, pending_loaded_message, render_loading_lines,
    suites_loaded_message, switched_message, threads_loaded_message};
pub use signs::review_comment_lines;

use vstd::prelude::*;
use std::collections::HashMap;
use crate::actions::ActionsNavigator;
use crate::github::pr::{PrChain, PrInfo, PullRequest};
use crate::github::workflow::{clone_suites, same_suites, CheckSuite};
use crate::types::comment::{clone_threads, same_thread, same_threads, Comment, CommentThread};
use crate::types::mode::{toggled, SidebarMode};
use crate::clock::UtcTime;
use crate::text::{str_eq, views};
use crate::ui::actions_buffer::ActionsBuffer;
use crate::ui::buffer::CommentBuffer;
use crate::ui::buffer::{flipped, lemma_line_map_in_bounds, lemma_thread_at_line_names_entry,
    rendered_comments, thread_at_line, thread_start_line};
use crate::ui::actions_buffer::{lemma_suite_at_line_names_entry, lemma_suite_map_in_bounds,
    rendered_suites, suite_at_line, suite_range};
use crate::ui::render::chain_header_lines;
use crate::ui::navigation::{back_index, forward_index, line_start, lines_fit, Navigator};

verus! {

broadcast use {vstd::std_specs::hash::group_hash_axioms, vstd::string::group_string_axioms};

/// The root comment of each thread, in order.
pub open spec fn roots(ts: Seq<CommentThread>) -> Seq<Comment> {
    ts.map_values(|t: CommentThread| t.root)
}

/// The root comments of the threads fit in the line numbers of this machine once rendered.
pub open spec fn roots_fit(ts: Seq<CommentThread>) -> bool {
    line_start(roots(ts), ts.len() as int) <= usize::MAX
}

/// The indices of the resolved threads: those collapsed when threads are shown.
pub open spec fn resolved_set(ts: Seq<CommentThread>) -> Set<usize> {
    Set::new(|i: usize| i < ts.len() && ts[i as int].is_resolved)
}

/// Two optional chains with the same pull requests and the same current index.
pub open spec fn same_chain(a: Option<PrChain>, b: Option<PrChain>) -> bool {
    match (a, b) {
        (Some(x), Some(y)) => x.chain@ == y.chain@ && x.current_index == y.current_index,
        (None, None) => true,
        _ => false,
    }
}

/// The root comments of the threads, copied.
pub fn thread_roots(threads: &Vec<CommentThread>) -> (r: Vec<Comment>)
    ensures
        r@ == roots(threads@),
{
    let mut r: Vec<Comment> = Vec::new();
    let mut i: usize = 0;
    while i < threads.len()
        invariant
            i <= threads@.len(),
            r@ == roots(threads@.take(i as int)),
        decreases threads@.len() - i,
    {
        r.push(threads[i].root.clone());
        assert(roots(threads@.take(i + 1)) =~= roots(threads@.take(i as int)).push(
            threads@[i as int].root,
        ));
        i = i + 1;
    }
    assert(threads@.take(threads@.len() as int) =~= threads@);
    r
}

/// Whether a list of threads can be shown: its root comments fit in the line numbers.
pub fn threads_fit(threads: &Vec<CommentThread>) -> (b: bool)
    ensures
        b == roots_fit(threads@),
{
    let r = thread_roots(threads);
    lines_fit(&r)
}

fn clone_chain(chain: Option<&PrChain>) -> (r: Option<PrChain>)
    ensures
        same_chain(r, match chain {
            Some(c) => Some(*c),
            None => None,
        }),
{
    match chain {
        Some(c) => Some(c.clone()),
        None => None,
    }
}

/// What a command comes to.
pub enum Outcome<T> {
    /// Go on with this.
    Proceed(T),
    /// Tell the user, as information; the command ends normally.
    Info(String),
    /// Tell the user, as an error; the command ends normally.
    Warn(String),
    /// The command fails with this message.
    Fail(String),
}

/// The outcome is information with this text.
pub open spec fn is_info<T>(o: Outcome<T>, m: Seq<char>) -> bool {
    o matches Outcome::Info(s) && s@ == m
}

/// The outcome is an error shown to the user with this text.
pub open spec fn is_warn<T>(o: Outcome<T>, m: Seq<char>) -> bool {
    o matches Outcome::Warn(s) && s@ == m
}

/// The outcome is a failure with this text.
pub open spec fn is_fail<T>(o: Outcome<T>, m: Seq<char>) -> bool {
    o matches Outcome::Fail(s) && s@ == m
}

/// A line as a buffer reports it, compared with what its line map says.
pub open spec fn line_agrees(l: Option<usize>, expected: Option<int>) -> bool {
    match l {
        Some(l) => expected == Some(l as int),
        None => expected.is_none(),
    }
}

/// The first line of suite `i` in an actions line map.
pub open spec fn suite_start(map: Seq<(int, int, int)>, i: int) -> Option<int> {
    match suite_range(map, i) {
        Some((s, _)) => Some(s),
        None => None,
    }
}

/// Text shown when there is nothing to move through in a mode.
pub open spec fn nothing_to_navigate(mode: SidebarMode) -> Seq<char> {
    match mode {
        SidebarMode::Comments => "No comments to navigate"@,
        SidebarMode::Actions => "No workflows to navigate"@,
        SidebarMode::PendingReview => "No pending comments to navigate"@,
    }
}

/// The selection after a move forward or back.
pub open spec fn moved(current: int, len: int, forward: bool) -> int {
    if forward {
        forward_index(current, len)
    } else {
        back_index(current)
    }
}

/// Two states that differ at most in which thread and which suite are selected.
pub open spec fn same_but_selection(a: PluginState, b: PluginState) -> bool {
    &&& a.threads == b.threads
    &&& a.navigator@.comments == b.navigator@.comments
    &&& a.buffer == b.buffer
    &&& a.is_loading == b.is_loading
    &&& a.current_pr == b.current_pr
    &&& a.pr_chain == b.pr_chain
    &&& a.pr_comment_cache == b.pr_comment_cache
    &&& a.mode == b.mode
    &&& a.actions_buffer == b.actions_buffer
    &&& a.check_suites == b.check_suites
    &&& a.actions_navigator@.count == b.actions_navigator@.count
    &&& a.pr_workflow_cache == b.pr_workflow_cache
}

/// What moving the selection forward or back does: nothing while loading or when there is
/// nothing to select in the mode (with a message), else the selection moves and the line where
/// the new selection starts is given.
pub open spec fn stepped(
    a: PluginState,
    b: PluginState,
    r: Outcome<Option<usize>>,
    forward: bool,
) -> bool {
    if a.is_loading {
        is_info(r, "Still loading..."@) && b == a
    } else if a.mode == SidebarMode::Actions {
        if a.actions_navigator@.count == 0 {
            is_info(r, nothing_to_navigate(a.mode)) && b == a
        } else {
            &&& same_but_selection(b, a)
            &&& b.navigator == a.navigator
            &&& b.actions_navigator@.current == moved(
                a.actions_navigator@.current,
                a.actions_navigator@.count,
                forward,
            )
            &&& r matches Outcome::Proceed(l) && line_agrees(
                l,
                suite_start(a.actions_buffer@.line_map, b.actions_navigator@.current),
            )
        }
    } else if a.navigator@.comments.len() == 0 {
        is_info(r, nothing_to_navigate(a.mode)) && b == a
    } else {
        &&& same_but_selection(b, a)
        &&& b.actions_navigator == a.actions_navigator
        &&& b.navigator@.current == moved(
            a.navigator@.current,
            a.navigator@.comments.len() as int,
            forward,
        )
        &&& r matches Outcome::Proceed(l) && line_agrees(
            l,
            thread_start_line(a.buffer@.line_map, b.navigator@.current),
        )
    }
}

/// Where a jump from the sidebar leads.
pub enum JumpTarget {
    /// Open the file at `path` with this editor command, and put the cursor on this line
    /// (1-based).
    File { path: String, command: String, line: u32 },
    /// Open a link in the browser with this editor command.
    Url(String),
}

/// The editor command that opens a file.
pub open spec fn edit_command(path: Seq<char>) -> Seq<char> {
    "edit "@ + path
}

/// The editor command that opens a link in the browser.
pub open spec fn open_command(url: Seq<char>) -> Seq<char> {
    "silent !open '"@ + url + "'"@
}

/// What a jump from a comment leads to: its file and line, or a message when it has none.
pub open spec fn comment_jump(c: Comment, mode: SidebarMode, r: Outcome<Option<JumpTarget>>) -> bool {
    match c.spec_location() {
        Some((path, line)) => r matches Outcome::Proceed(
            Some(JumpTarget::File { path: p, command, line: l }),
        ) && p@ == path && command@ == edit_command(path) && l == line,
        None => is_info(
            r,
            if mode == SidebarMode::Comments {
                "This is an issue comment with no file location"@
            } else {
                "Pending comment has no file location"@
            },
        ),
    }
}

/// What a jump from a suite leads to: the link of its first run, or a message.
pub open spec fn suite_jump(suite: CheckSuite, r: Outcome<Option<JumpTarget>>) -> bool {
    if suite.check_runs@.len() == 0 {
        is_info(r, "No check runs in this suite"@)
    } else {
        match suite.check_runs@[0].details_url {
            Some(url) => r matches Outcome::Proceed(Some(JumpTarget::Url(command))) && command@
                == open_command(url@),
            None => is_info(r, "No URL available for this workflow"@),
        }
    }
}

/// What switching mode asks for next.
pub enum SwitchStep {
    /// Actions mode has nothing to show yet: fetch the suites of this pull request.
    FetchActions(PullRequest),
    /// Show the buffer of the new mode.
    Show,
}

/// A move along the chain of stacked pull requests: where to, and in which repository.
pub struct ChainMove {
    pub target: PrInfo,
    pub index: usize,
    pub owner: String,
    pub repo: String,
}

/// The chain index a move to the parent (`to_parent`) or to the child leads to.
pub open spec fn move_index(current: int, to_parent: bool) -> int {
    if to_parent {
        current - 1
    } else {
        current + 1
    }
}

/// A move to the parent and then to the child comes back to the same pull request, and so
/// does a move to the child and then to the parent.
pub proof fn lemma_parent_then_child(current: int)
    ensures
        move_index(move_index(current, true), false) == current,
        move_index(move_index(current, false), true) == current,
{
}

/// After a move to the parent, the chain is not at its tip: a child is there to move back to;
/// after a move to the child, the chain is not at its root.
pub proof fn lemma_moves_can_be_undone(current: int, len: int)
    requires
        0 <= current < len,
    ensures
        current > 0 ==> move_index(current, true) + 1 < len,
        current + 1 < len ==> move_index(current, false) > 0,
{
}

/// A cache after `number` was stored in it: the other entries stay.
pub open spec fn cached_as<V>(new: Map<u64, V>, old: Map<u64, V>, number: u64) -> bool {
    &&& new.contains_key(number)
    &&& new == old.insert(number, new[number])
}

/// The numbers of the pull requests of a chain other than `number`, in chain order.
pub open spec fn other_numbers(prs: Seq<PrInfo>, number: u64) -> Seq<u64>
    decreases prs.len(),
{
    if prs.len() == 0 {
        Seq::empty()
    } else {
        let rest = other_numbers(prs.drop_last(), number);
        if prs.last().number == number {
            rest
        } else {
            rest.push(prs.last().number)
        }
    }
}

/// The pull requests fetched ahead are exactly those of the chain with another number.
pub proof fn lemma_other_numbers(prs: Seq<PrInfo>, number: u64, x: u64)
    ensures
        other_numbers(prs, number).contains(x) <==> (x != number && exists|i: int|
            0 <= i < prs.len() && #[trigger] prs[i].number == x),
    decreases prs.len(),
{
    if prs.len() > 0 {
        let rest = prs.drop_last();
        lemma_other_numbers(rest, number, x);
        let o = other_numbers(rest, number);
        if other_numbers(prs, number).contains(x) {
            if prs.last().number != number && x == prs.last().number {
                assert(prs[prs.len() - 1].number == x);
            } else {
                if prs.last().number != number {
                    let k = choose|k: int| 0 <= k < o.push(prs.last().number).len() && o.push(
                        prs.last().number,
                    )[k] == x;
                    assert(o[k] == x);
                }
                assert(o.contains(x));
                let i = choose|i: int| 0 <= i < rest.len() && #[trigger] rest[i].number == x;
                assert(prs[i].number == x);
            }
        }
        if x != number && exists|i: int| 0 <= i < prs.len() && #[trigger] prs[i].number == x {
            let i = choose|i: int| 0 <= i < prs.len() && #[trigger] prs[i].number == x;
            if i < prs.len() - 1 {
                assert(rest[i].number == x);
                let k = choose|k: int| 0 <= k < o.len() && o[k] == x;
                if prs.last().number != number {
                    assert(o.push(prs.last().number)[k] == x);
                }
            } else {
                assert(o.push(prs.last().number)[o.len() as int] == x);
            }
        }
    }
}

/// What a cache holds after `number` was stored: `number` is there, and every other entry is
/// as it was.
pub proof fn lemma_cache_keeps_others<V>(new: Map<u64, V>, old: Map<u64, V>, number: u64, k: u64)
    requires
        cached_as(new, old, number),
        k != number,
    ensures
        new.contains_key(number),
        new.contains_key(k) == old.contains_key(k),
        old.contains_key(k) ==> new[k] == old[k],
{
}

/// Threads read back from the cache are those that were stored: copies of copies agree
/// thread by thread with the original.
pub proof fn lemma_cache_read_after_write(
    shown: Seq<CommentThread>,
    stored: Seq<CommentThread>,
    read: Seq<CommentThread>,
)
    requires
        same_threads(stored, shown),
        same_threads(read, stored),
    ensures
        same_threads(read, shown),
{
    assert forall|i: int| 0 <= i < read.len() implies same_thread(#[trigger] read[i], shown[i]) by {
        assert(same_thread(read[i], stored[i]));
        assert(same_thread(stored[i], shown[i]));
    }
}

/// The pull requests of a chain to fetch ahead, all but the one just shown.
pub fn prefetch_numbers(chain: &PrChain, number: u64) -> (r: Vec<u64>)
    ensures
        r@ == other_numbers(chain.chain@, number),
{
    let mut r: Vec<u64> = Vec::new();
    let mut i: usize = 0;
    while i < chain.chain.len()
        invariant
            i <= chain.chain@.len(),
            r@ == other_numbers(chain.chain@.take(i as int), number),
        decreases chain.chain@.len() - i,
    {
        assert(chain.chain@.take(i + 1).drop_last() =~= chain.chain@.take(i as int));
        if chain.chain[i].number != number {
            r.push(chain.chain[i].number);
        }
        i = i + 1;
    }
    assert(chain.chain@.take(chain.chain@.len() as int) =~= chain.chain@);
    r
}

/// Which kind of comment an edit or a deletion goes to.
#[derive(Clone, Copy, Debug, PartialEq, Eq, Structural)]
pub enum EditableCommentKind {
    Review,
    Issue,
}

/// Editing or deleting the selected comment.
#[derive(Clone, Copy, Debug, PartialEq, Eq, Structural)]
pub enum CommentAction {
    Edit,
    Delete,
}

/// The comment an edit or a deletion goes to: its node id on GitHub, its text and kind.
pub struct EditTarget {
    pub node_id: String,
    pub body: String,
    pub kind: EditableCommentKind,
}

/// The checks made before the selected comment is looked at: loading, then the mode.
pub open spec fn comment_prechecked<T>(s: PluginState, action: CommentAction, r: Outcome<T>) -> bool {
    if s.is_loading {
        is_info(r, "Still loading..."@)
    } else if s.mode == SidebarMode::Actions {
        is_info(
            r,
            if action == CommentAction::Edit {
                "Edit comment works in Comments and Pending Review sidebars"@
            } else {
                "Delete comment works in Comments and Pending Review sidebars"@
            },
        )
    } else if s.navigator@.current >= s.threads@.len() {
        if action == CommentAction::Edit {
            is_warn(r, "No comment selected"@)
        } else {
            is_fail(r, "No comment selected"@)
        }
    } else {
        true
    }
}

/// Whether the checks before the selected comment is looked at let the command go on.
pub open spec fn passes_precheck(s: PluginState) -> bool {
    !s.is_loading && s.mode != SidebarMode::Actions && s.navigator@.current < s.threads@.len()
}

/// What the selected comment allows: its node id, text and kind, or why not. In comments
/// mode `login` is the user's, and only their own comments can be changed.
pub open spec fn target_of(
    c: Comment,
    mode: SidebarMode,
    action: CommentAction,
    login: Option<Seq<char>>,
    r: Outcome<EditTarget>,
) -> bool {
    let own = if action == CommentAction::Edit {
        "You can only edit your own comments"@
    } else {
        "You can only delete your own comments"@
    };
    let not_here = if action == CommentAction::Edit {
        "Selected item is not editable in this mode"@
    } else {
        "Selected item is not deletable in this mode"@
    };
    match c {
        Comment::Review(rc) => if login is Some && login.unwrap() != rc.user.login@ {
            is_info(r, own)
        } else {
            match rc.node_id {
                Some(id) => r matches Outcome::Proceed(t) && t.node_id@ == id@ && t.body@
                    == rc.body@ && t.kind == EditableCommentKind::Review,
                None => is_fail(r, "Review comment node ID is missing"@),
            }
        },
        Comment::Issue(ic) => if mode != SidebarMode::Comments {
            is_info(r, not_here)
        } else if login is Some && login.unwrap() != ic.user.login@ {
            is_info(r, own)
        } else {
            match ic.node_id {
                Some(id) => r matches Outcome::Proceed(t) && t.node_id@ == id@ && t.body@
                    == ic.body@ && t.kind == EditableCommentKind::Issue,
                None => is_fail(r, "Issue comment node ID is missing"@),
            }
        },
    }
}

/// The view of an optional text.
pub open spec fn opt_view(s: Option<&str>) -> Option<Seq<char>> {
    match s {
        Some(t) => Some(t@),
        None => None,
    }
}

/// The threads after a thread's resolution was set to `resolved`.
pub open spec fn with_resolution(ts: Seq<CommentThread>, i: int, resolved: bool) -> Seq<CommentThread> {
    ts.update(i, CommentThread { is_resolved: resolved, ..ts[i] })
}

/// Resolving a thread and then unresolving it (or the reverse) gives the threads back.
pub proof fn lemma_resolution_round_trip(ts: Seq<CommentThread>, i: int)
    requires
        0 <= i < ts.len(),
    ensures
        with_resolution(with_resolution(ts, i, !ts[i].is_resolved), i, ts[i].is_resolved) == ts,
{
    assert(with_resolution(with_resolution(ts, i, !ts[i].is_resolved), i, ts[i].is_resolved) =~= ts);
}

/// `next_comment` and then `prev_comment` come back to the thread (or suite) one started
/// from, unless it was the last one.
pub proof fn lemma_next_then_prev(
    a: PluginState,
    b: PluginState,
    c: PluginState,
    r1: Outcome<Option<usize>>,
    r2: Outcome<Option<usize>>,
)
    requires
        stepped(a, b, r1, true),
        stepped(b, c, r2, false),
        !a.is_loading,
        a.mode == SidebarMode::Actions ==> 0 <= a.actions_navigator@.current
            && a.actions_navigator@.current + 1 < a.actions_navigator@.count,
        a.mode != SidebarMode::Actions ==> 0 <= a.navigator@.current && a.navigator@.current + 1
            < a.navigator@.comments.len(),
    ensures
        a.mode == SidebarMode::Actions ==> c.actions_navigator@.current == a.actions_navigator@.current,
        a.mode != SidebarMode::Actions ==> c.navigator@.current == a.navigator@.current,
        c.mode == a.mode,
        c.threads == a.threads,
        c.check_suites == a.check_suites,
{
}

/// `prev_comment` and then `next_comment` come back to the thread (or suite) one started
/// from, unless it was the first one.
pub proof fn lemma_prev_then_next(
    a: PluginState,
    b: PluginState,
    c: PluginState,
    r1: Outcome<Option<usize>>,
    r2: Outcome<Option<usize>>,
)
    requires
        stepped(a, b, r1, false),
        stepped(b, c, r2, true),
        !a.is_loading,
        a.mode == SidebarMode::Actions ==> 0 < a.actions_navigator@.current
            < a.actions_navigator@.count,
        a.mode != SidebarMode::Actions ==> 0 < a.navigator@.current
            < a.navigator@.comments.len(),
    ensures
        a.mode == SidebarMode::Actions ==> c.actions_navigator@.current == a.actions_navigator@.current,
        a.mode != SidebarMode::Actions ==> c.navigator@.current == a.navigator@.current,
        c.mode == a.mode,
        c.threads == a.threads,
        c.check_suites == a.check_suites,
{
}

/// What the plugin holds while its sidebar is open.
pub struct PluginState {
    pub threads: Vec<CommentThread>,
    pub navigator: Navigator,
    pub buffer: CommentBuffer,
    pub is_loading: bool,
    pub current_pr: Option<PullRequest>,
    pub pr_chain: Option<PrChain>,
    pub pr_comment_cache: HashMap<u64, Vec<CommentThread>>,
    pub mode: SidebarMode,
    pub actions_buffer: ActionsBuffer,
    pub check_suites: Vec<CheckSuite>,
    pub actions_navigator: ActionsNavigator,
    pub pr_workflow_cache: HashMap<u64, Vec<CheckSuite>>,
}

impl PluginState {
    /// The navigators and buffers agree with the threads and suites they were made from,
    /// and the line maps name only threads and suites that exist.
    pub open spec fn wf(&self) -> bool {
        &&& self.navigator@.comments == roots(self.threads@)
        &&& same_threads(self.buffer@.threads, self.threads@)
        &&& self.actions_navigator@.count == self.check_suites@.len()
        &&& same_suites(self.actions_buffer@.suites, self.check_suites@)
        &&& forall|a: int|
            0 <= a < self.buffer@.line_map.len() ==> 0 <= (#[trigger] self.buffer@.line_map[a]).2
                < self.threads@.len()
        &&& forall|a: int|
            0 <= a < self.actions_buffer@.line_map.len() ==> 0 <= (
            #[trigger] self.actions_buffer@.line_map[a]).2 < self.check_suites@.len()
    }

    /// State showing `threads` in comments mode, resolved threads collapsed.
    pub fn new(threads: Vec<CommentThread>) -> (s: Self)
        requires
            roots_fit(threads@),
        ensures
            s.wf(),
            s.threads@ == threads@,
            s.buffer@.collapsed == resolved_set(threads@),
            s.buffer@.chain.is_none(),
            s.navigator@.current == 0,
            !s.is_loading,
            s.current_pr.is_none(),
            s.pr_chain.is_none(),
            s.pr_comment_cache@ == Map::<u64, Vec<CommentThread>>::empty(),
            s.mode == SidebarMode::Comments,
            s.check_suites@.len() == 0,
            s.actions_navigator@.current == 0,
            s.pr_workflow_cache@ == Map::<u64, Vec<CheckSuite>>::empty(),
    {
        let mut buffer = CommentBuffer::new(clone_threads(&threads));
        buffer.initialize_collapsed();
        let navigator = Navigator::new(thread_roots(&threads));
        let s = PluginState {
            threads,
            navigator,
            buffer,
            is_loading: false,
            current_pr: None,
            pr_chain: None,
            pr_comment_cache: HashMap::new(),
            mode: SidebarMode::Comments,
            actions_buffer: ActionsBuffer::new(Vec::new()),
            check_suites: Vec::new(),
            actions_navigator: ActionsNavigator::new(0),
            pr_workflow_cache: HashMap::new(),
        };
        assert(s.buffer@.collapsed =~= resolved_set(s.threads@));
        s
    }

    /// Empty state, waiting for the first answer from GitHub.
    pub fn loading() -> (s: Self)
        ensures
            s.wf(),
            s.threads@.len() == 0,
            s.buffer@.collapsed == Set::<usize>::empty(),
            s.buffer@.chain.is_none(),
            s.is_loading,
            s.current_pr.is_none(),
            s.pr_chain.is_none(),
            s.pr_comment_cache@ == Map::<u64, Vec<CommentThread>>::empty(),
            s.mode == SidebarMode::Comments,
            s.check_suites@.len() == 0,
            s.pr_workflow_cache@ == Map::<u64, Vec<CheckSuite>>::empty(),
    {
        let threads: Vec<CommentThread> = Vec::new();
        assert(line_start(roots(threads@), 0) == 0);
        let navigator = Navigator::new(Vec::new());
        let s = PluginState {
            threads,
            navigator,
            buffer: CommentBuffer::new(Vec::new()),
            is_loading: true,
            current_pr: None,
            pr_chain: None,
            pr_comment_cache: HashMap::new(),
            mode: SidebarMode::Comments,
            actions_buffer: ActionsBuffer::new(Vec::new()),
            check_suites: Vec::new(),
            actions_navigator: ActionsNavigator::new(0),
            pr_workflow_cache: HashMap::new(),
        };
        assert(s.navigator@.comments =~= roots(s.threads@));
        s
    }

    /// Shows `threads`: a fresh buffer with `chain` as header and resolved threads collapsed,
    /// the selection back on the first thread, and loading over.
    pub fn set_threads(&mut self, threads: Vec<CommentThread>, chain: Option<&PrChain>)
        requires
            old(self).wf(),
            roots_fit(threads@),
        ensures
            final(self).wf(),
            final(self).threads@ == threads@,
            final(self).buffer@.collapsed == resolved_set(threads@),
            same_chain(final(self).buffer@.chain, match chain {
                Some(c) => Some(*c),
                None => None,
            }),
            final(self).navigator@.current == 0,
            !final(self).is_loading,
            final(self).current_pr == old(self).current_pr,
            final(self).pr_chain == old(self).pr_chain,
            final(self).pr_comment_cache == old(self).pr_comment_cache,
            final(self).mode == old(self).mode,
            final(self).actions_buffer == old(self).actions_buffer,
            final(self).check_suites == old(self).check_suites,
            final(self).actions_navigator == old(self).actions_navigator,
            final(self).pr_workflow_cache == old(self).pr_workflow_cache,
    {
        let mut buffer = CommentBuffer::new(clone_threads(&threads));
        buffer.set_chain(clone_chain(chain));
        buffer.initialize_collapsed();
        self.buffer = buffer;
        self.navigator = Navigator::new(thread_roots(&threads));
        self.threads = threads;
        self.is_loading = false;
        assert(self.buffer@.collapsed =~= resolved_set(self.threads@));
    }

    /// Shows `suites` in actions mode: a fresh buffer with `chain` as header, the selection
    /// back on the first suite, and loading over.
    pub fn set_check_suites(&mut self, suites: Vec<CheckSuite>, chain: Option<&PrChain>)
        requires
            old(self).wf(),
        ensures
            final(self).wf(),
            final(self).check_suites@ == suites@,
            same_chain(final(self).actions_buffer@.chain, match chain {
                Some(c) => Some(*c),
                None => None,
            }),
            final(self).actions_navigator@.current == 0,
            !final(self).is_loading,
            final(self).threads == old(self).threads,
            final(self).navigator == old(self).navigator,
            final(self).buffer == old(self).buffer,
            final(self).current_pr == old(self).current_pr,
            final(self).pr_chain == old(self).pr_chain,
            final(self).pr_comment_cache == old(self).pr_comment_cache,
            final(self).mode == old(self).mode,
            final(self).pr_workflow_cache == old(self).pr_workflow_cache,
    {
        let mut buffer = ActionsBuffer::new(clone_suites(&suites));
        buffer.set_chain(clone_chain(chain));
        self.actions_buffer = buffer;
        self.actions_navigator = ActionsNavigator::new(suites.len());
        self.check_suites = suites;
        self.is_loading = false;
    }

    /// Moves the selection forward or back in the current mode, and gives the line
    /// (0-based) where the newly selected thread or suite starts.
    fn step(&mut self, forward: bool) -> (r: Outcome<Option<usize>>)
        requires
            old(self).wf(),
        ensures
            final(self).wf(),
            stepped(*old(self), *final(self), r, forward),
    {
        if self.is_loading {
            return Outcome::Info("Still loading...".to_string());
        }
        match self.mode {
            SidebarMode::Actions => {
                if self.actions_navigator.is_empty() {
                    return Outcome::Info("No workflows to navigate".to_string());
                }
                if forward {
                    self.actions_navigator.next();
                } else {
                    self.actions_navigator.prev();
                }
                let line = self.actions_buffer.line_for_suite(self.actions_navigator.current_index());
                Outcome::Proceed(line)
            },
            _ => {
                if self.navigator.is_empty() {
                    let msg = if self.mode == SidebarMode::Comments {
                        "No comments to navigate"
                    } else {
                        "No pending comments to navigate"
                    };
                    return Outcome::Info(msg.to_string());
                }
                if forward {
                    self.navigator.next();
                } else {
                    self.navigator.prev();
                }
                let line = self.buffer.line_for_thread(self.navigator.current_index());
                Outcome::Proceed(line)
            },
        }
    }

    /// Selects the next thread (or suite in actions mode), staying on the last one.
    pub fn next_comment(&mut self) -> (r: Outcome<Option<usize>>)
        requires
            old(self).wf(),
        ensures
            final(self).wf(),
            stepped(*old(self), *final(self), r, true),
    {
        self.step(true)
    }

    /// Selects the previous thread (or suite in actions mode), staying on the first one.
    pub fn prev_comment(&mut self) -> (r: Outcome<Option<usize>>)
        requires
            old(self).wf(),
        ensures
            final(self).wf(),
            stepped(*old(self), *final(self), r, false),
    {
        self.step(false)
    }

    /// Follows the cursor of the sidebar: selects the thread (or, in actions mode, the suite)
    /// that the buffer shows at `line`, when there is one.
    pub fn follow_cursor(&mut self, line: usize)
        requires
            old(self).wf(),
        ensures
            final(self).wf(),
            same_but_selection(*final(self), *old(self)),
            old(self).mode == SidebarMode::Actions ==> {
                &&& final(self).navigator == old(self).navigator
                &&& final(self).actions_navigator@.current == match suite_at_line(
                    old(self).actions_buffer@.line_map,
                    line as int,
                ) {
                    Some(i) => i,
                    None => old(self).actions_navigator@.current,
                }
            },
            old(self).mode != SidebarMode::Actions ==> {
                &&& final(self).actions_navigator == old(self).actions_navigator
                &&& final(self).navigator@.current == match thread_at_line(
                    old(self).buffer@.line_map,
                    line as int,
                ) {
                    Some(i) => i,
                    None => old(self).navigator@.current,
                }
            },
    {
        proof {
            lemma_thread_at_line_names_entry(self.buffer@.line_map, line as int);
            lemma_suite_at_line_names_entry(self.actions_buffer@.line_map, line as int);
        }
        if self.mode == SidebarMode::Actions {
            if let Some(idx) = self.actions_buffer.line_to_suite_index(line) {
                self.actions_navigator.set_index(idx);
            }
        } else {
            if let Some(idx) = self.buffer.line_to_thread_index(line) {
                self.navigator.set_index(idx);
            }
        }
    }

    /// Collapses the selected thread when it is expanded, and expands it when collapsed.
    /// Gives the thread's index and whether it is now collapsed.
    pub fn toggle_collapse(&mut self) -> (r: Outcome<(usize, bool)>)
        requires
            old(self).wf(),
        ensures
            final(self).wf(),
            old(self).is_loading ==> is_info(r, "Still loading..."@) && *final(self) == *old(self),
            !old(self).is_loading && old(self).mode != SidebarMode::Comments ==> is_info(
                r,
                "Collapse only works in Comments mode"@,
            ) && *final(self) == *old(self),
            !old(self).is_loading && old(self).mode == SidebarMode::Comments ==> {
                let i = old(self).navigator@.current;
                &&& final(self).buffer@.collapsed == flipped(old(self).buffer@.collapsed, i as usize)
                &&& final(self).buffer@.threads == old(self).buffer@.threads
                &&& final(self).buffer@.line_map == old(self).buffer@.line_map
                &&& final(self).buffer@.chain == old(self).buffer@.chain
                &&& r matches Outcome::Proceed((idx, now)) && idx == i && now
                    == final(self).buffer@.collapsed.contains(idx)
                &&& final(self).threads == old(self).threads
                &&& final(self).navigator == old(self).navigator
                &&& final(self).is_loading == old(self).is_loading
                &&& final(self).current_pr == old(self).current_pr
                &&& final(self).pr_chain == old(self).pr_chain
                &&& final(self).pr_comment_cache == old(self).pr_comment_cache
                &&& final(self).mode == old(self).mode
                &&& final(self).actions_buffer == old(self).actions_buffer
                &&& final(self).check_suites == old(self).check_suites
                &&& final(self).actions_navigator == old(self).actions_navigator
                &&& final(self).pr_workflow_cache == old(self).pr_workflow_cache
            },
    {
        if self.is_loading {
            return Outcome::Info("Still loading...".to_string());
        }
        if self.mode != SidebarMode::Comments {
            return Outcome::Info("Collapse only works in Comments mode".to_string());
        }
        let idx = self.navigator.current_index();
        self.buffer.toggle_collapse(idx);
        let now = self.buffer.is_collapsed(idx);
        Outcome::Proceed((idx, now))
    }

    /// The selected thread, to be resolved or unresolved on GitHub: its index, its id, and
    /// whether it is resolved now.
    pub fn resolve_target(&self) -> (r: Outcome<(usize, String, bool)>)
        requires
            self.wf(),
        ensures
            self.is_loading ==> is_info(r, "Still loading..."@),
            !self.is_loading && self.mode != SidebarMode::Comments ==> is_info(
                r,
                "Resolve only works in Comments mode"@,
            ),
            !self.is_loading && self.mode == SidebarMode::Comments ==> {
                let i = self.navigator@.current;
                if i >= self.threads@.len() {
                    is_warn(r, "No thread selected"@)
                } else {
                    let t = self.threads@[i];
                    if t.root is Review && t.thread_id is Some {
                        r matches Outcome::Proceed((idx, id, resolved)) && idx == i && id@
                            == t.thread_id.unwrap()@ && resolved == t.is_resolved
                    } else {
                        is_info(r, "Cannot resolve issue comments or threads without thread ID"@)
                    }
                }
            },
    {
        if self.is_loading {
            return Outcome::Info("Still loading...".to_string());
        }
        if self.mode != SidebarMode::Comments {
            return Outcome::Info("Resolve only works in Comments mode".to_string());
        }
        let idx = self.navigator.current_index();
        if idx >= self.threads.len() {
            return Outcome::Warn("No thread selected".to_string());
        }
        let thread = &self.threads[idx];
        match (&thread.root, &thread.thread_id) {
            (Comment::Review(_), Some(id)) => Outcome::Proceed((idx, id.clone(), thread.is_resolved)),
            _ => Outcome::Info(
                "Cannot resolve issue comments or threads without thread ID".to_string(),
            ),
        }
    }

    /// Records that thread `index` is now resolved or not, collapsing it when resolved,
    /// and gives the message to show.
    pub fn apply_resolution(&mut self, index: usize, resolved: bool) -> (msg: String)
        requires
            old(self).wf(),
            index < old(self).threads@.len(),
        ensures
            final(self).wf(),
            final(self).threads@ == with_resolution(old(self).threads@, index as int, resolved),
            final(self).buffer@.threads == with_resolution(old(self).buffer@.threads, index as int, resolved),
            final(self).buffer@.collapsed == if resolved {
                old(self).buffer@.collapsed.insert(index)
            } else {
                old(self).buffer@.collapsed
            },
            final(self).navigator == old(self).navigator,
            final(self).is_loading == old(self).is_loading,
            final(self).current_pr == old(self).current_pr,
            final(self).pr_chain == old(self).pr_chain,
            final(self).pr_comment_cache == old(self).pr_comment_cache,
            final(self).mode == old(self).mode,
            final(self).actions_buffer == old(self).actions_buffer,
            final(self).check_suites == old(self).check_suites,
            final(self).actions_navigator == old(self).actions_navigator,
            final(self).pr_workflow_cache == old(self).pr_workflow_cache,
            msg@ == if resolved {
                "Thread resolved"@
            } else {
                "Thread unresolved"@
            },
    {
        self.buffer.set_thread_resolved(index, resolved);
        let mut t = self.threads.remove(index);
        t.is_resolved = resolved;
        self.threads.insert(index, t);
        if resolved {
            self.buffer.set_collapsed(index, true);
        }
        assert(self.navigator@.comments =~= roots(self.threads@));
        if resolved {
            "Thread resolved".to_string()
        } else {
            "Thread unresolved".to_string()
        }
    }

    /// Where jumping from the current selection leads: the file and line of the selected
    /// comment, or in actions mode the link of the selected suite's first run.
    pub fn jump_target(&self) -> (r: Outcome<Option<JumpTarget>>)
        requires
            self.wf(),
        ensures
            self.is_loading ==> is_info(r, "Still loading..."@),
            !self.is_loading && self.mode == SidebarMode::Actions ==> {
                let i = self.actions_navigator@.current;
                if i < self.check_suites@.len() {
                    suite_jump(self.check_suites@[i], r)
                } else {
                    r matches Outcome::Proceed(None)
                }
            },
            !self.is_loading && self.mode != SidebarMode::Actions ==> {
                if self.navigator@.comments.len() == 0 {
                    is_info(
                        r,
                        if self.mode == SidebarMode::Comments {
                            "No comments to jump to"@
                        } else {
                            "No pending comments to jump to"@
                        },
                    )
                } else {
                    comment_jump(self.navigator@.comments[self.navigator@.current], self.mode, r)
                }
            },
    {
        if self.is_loading {
            return Outcome::Info("Still loading...".to_string());
        }
        if self.mode == SidebarMode::Actions {
            let idx = self.actions_navigator.current_index();
            if idx >= self.check_suites.len() {
                return Outcome::Proceed(None);
            }
            let suite = &self.check_suites[idx];
            if suite.check_runs.len() == 0 {
                return Outcome::Info("No check runs in this suite".to_string());
            }
            return match &suite.check_runs[0].details_url {
                Some(url) => {
                    let mut cmd = "silent !open '".to_string();
                    cmd.append(url.as_str());
                    cmd.append("'");
                    Outcome::Proceed(Some(JumpTarget::Url(cmd)))
                },
                None => Outcome::Info("No URL available for this workflow".to_string()),
            };
        }
        let comments_mode = self.mode == SidebarMode::Comments;
        match self.navigator.current() {
            None => {
                let msg = if comments_mode {
                    "No comments to jump to"
                } else {
                    "No pending comments to jump to"
                };
                Outcome::Info(msg.to_string())
            },
            Some(comment) => match comment.location() {
                Some((path, line)) => {
                    let mut cmd = "edit ".to_string();
                    cmd.append(path);
                    Outcome::Proceed(
                        Some(JumpTarget::File { path: path.to_string(), command: cmd, line }),
                    )
                },
                None => {
                    let msg = if comments_mode {
                        "This is an issue comment with no file location"
                    } else {
                        "Pending comment has no file location"
                    };
                    Outcome::Info(msg.to_string())
                },
            },
        }
    }

    /// Switches between comments and actions mode. Entering actions mode with no suites yet
    /// asks for them to be fetched; otherwise the new mode is to be shown.
    pub fn switch_mode(&mut self) -> (r: Outcome<SwitchStep>)
        requires
            old(self).wf(),
        ensures
            final(self).wf(),
            old(self).mode == SidebarMode::PendingReview ==> is_info(
                r,
                "Mode switching is disabled in pending review sidebar"@,
            ) && *final(self) == *old(self),
            old(self).mode != SidebarMode::PendingReview ==> {
                &&& final(self).mode == toggled(old(self).mode)
                &&& *final(self) == (PluginState { mode: final(self).mode, ..*old(self) })
                &&& if final(self).mode == SidebarMode::Actions && old(self).check_suites@.len() == 0
                    && old(self).current_pr is Some {
                    r matches Outcome::Proceed(SwitchStep::FetchActions(pr)) && pr
                        == old(self).current_pr.unwrap()
                } else {
                    r matches Outcome::Proceed(SwitchStep::Show)
                }
            },
    {
        if self.mode == SidebarMode::PendingReview {
            return Outcome::Info("Mode switching is disabled in pending review sidebar".to_string());
        }
        let new_mode = self.mode.toggle();
        self.mode = new_mode;
        if new_mode == SidebarMode::Actions && self.check_suites.len() == 0 {
            if let Some(pr) = &self.current_pr {
                return Outcome::Proceed(SwitchStep::FetchActions(pr.clone()));
            }
        }
        Outcome::Proceed(SwitchStep::Show)
    }

    /// The lines of the current mode's buffer as seen at time `now`; the buffer records
    /// where each thread or suite is.
    pub fn render_lines(&mut self, now: UtcTime) -> (lines: Vec<String>)
        requires
            old(self).wf(),
        ensures
            final(self).wf(),
            old(self).mode == SidebarMode::Actions ==> {
                let r = rendered_suites(old(self).actions_buffer@.suites, old(self).actions_buffer@.chain, now);
                &&& views(lines@) == r.0
                &&& final(self).actions_buffer@.line_map == r.1
                &&& final(self).actions_buffer@.suites == old(self).actions_buffer@.suites
                &&& final(self).actions_buffer@.chain == old(self).actions_buffer@.chain
                &&& final(self).buffer == old(self).buffer
            },
            old(self).mode != SidebarMode::Actions ==> {
                let r = rendered_comments(
                    old(self).buffer@.threads,
                    old(self).buffer@.collapsed,
                    old(self).buffer@.chain,
                    now,
                );
                &&& views(lines@) == r.0
                &&& final(self).buffer@.line_map == r.1
                &&& final(self).buffer@.threads == old(self).buffer@.threads
                &&& final(self).buffer@.collapsed == old(self).buffer@.collapsed
                &&& final(self).buffer@.chain == old(self).buffer@.chain
                &&& final(self).actions_buffer == old(self).actions_buffer
            },
            final(self).threads == old(self).threads,
            final(self).navigator == old(self).navigator,
            final(self).is_loading == old(self).is_loading,
            final(self).current_pr == old(self).current_pr,
            final(self).pr_chain == old(self).pr_chain,
            final(self).pr_comment_cache == old(self).pr_comment_cache,
            final(self).mode == old(self).mode,
            final(self).check_suites == old(self).check_suites,
            final(self).actions_navigator == old(self).actions_navigator,
            final(self).pr_workflow_cache == old(self).pr_workflow_cache,
    {
        proof {
            lemma_line_map_in_bounds(self.buffer@.threads, self.buffer@.collapsed, self.buffer@.chain, now);
            lemma_suite_map_in_bounds(self.actions_buffer@.suites, self.actions_buffer@.chain, now);
        }
        let ghost n = self.threads@.len();
        let lines = if self.mode == SidebarMode::Actions {
            self.actions_buffer.render(now)
        } else {
            self.buffer.render(now)
        };
        proof {
            assert forall|a: int| 0 <= a < self.buffer@.line_map.len() implies 0 <= (
            #[trigger] self.buffer@.line_map[a]).2 < n by {
                if old(self).mode != SidebarMode::Actions {
                    let r = rendered_comments(
                        old(self).buffer@.threads,
                        old(self).buffer@.collapsed,
                        old(self).buffer@.chain,
                        now,
                    );
                    assert(self.buffer@.line_map == r.1);
                    assert(0 <= r.1[a].2 < old(self).buffer@.threads.len()) by {
                        lemma_line_map_in_bounds(
                            old(self).buffer@.threads,
                            old(self).buffer@.collapsed,
                            old(self).buffer@.chain,
                            now,
                        );
                        assert(chain_header_lines(old(self).buffer@.chain).len() <= r.1[a].0);
                    }
                }
            }
        }
        lines
    }

    /// The line (0-based) where the current mode's selection starts in its buffer.
    pub fn cursor_line(&self) -> (l: Option<usize>)
        ensures
            self.mode == SidebarMode::Actions ==> line_agrees(
                l,
                suite_start(self.actions_buffer@.line_map, self.actions_navigator@.current),
            ),
            self.mode != SidebarMode::Actions ==> line_agrees(
                l,
                thread_start_line(self.buffer@.line_map, self.navigator@.current),
            ),
    {
        if self.mode == SidebarMode::Actions {
            self.actions_buffer.line_for_suite(self.actions_navigator.current_index())
        } else {
            self.buffer.line_for_thread(self.navigator.current_index())
        }
    }

    /// The move to the parent (`to_parent`) or child pull request of the chain, for the
    /// current mode; none when no pull request is loaded.
    pub fn chain_move(&self, to_parent: bool) -> (r: Outcome<Option<ChainMove>>)
        requires
            self.wf(),
        ensures
            self.is_loading ==> is_info(r, "Still loading..."@),
            !self.is_loading && self.pr_chain is None ==> is_info(r, "No PR chain detected"@),
            !self.is_loading && self.pr_chain is Some ==> {
                let c = self.pr_chain.unwrap();
                let at_end = if to_parent {
                    c.current_index == 0
                } else {
                    c.current_index + 1 >= c.chain@.len()
                };
                let exists_target = if to_parent {
                    c.current_index <= c.chain@.len()
                } else {
                    true
                };
                let index = move_index(c.current_index as int, to_parent);
                if at_end {
                    is_info(
                        r,
                        if to_parent {
                            "Already at the root PR (no parent)"@
                        } else {
                            "Already at the tip PR (no child)"@
                        },
                    )
                } else if !exists_target {
                    is_info(r, "No parent PR found"@)
                } else if self.current_pr is None {
                    r matches Outcome::Proceed(None)
                } else if self.mode == SidebarMode::PendingReview {
                    is_info(r, "Chain navigation is disabled in pending review sidebar"@)
                } else {
                    r matches Outcome::Proceed(Some(m)) && m.target == c.chain@[index] && m.index
                        == index && m.owner@ == self.current_pr.unwrap().owner@ && m.repo@
                        == self.current_pr.unwrap().repo@
                }
            },
    {
        if self.is_loading {
            return Outcome::Info("Still loading...".to_string());
        }
        let chain = match &self.pr_chain {
            Some(c) => c,
            None => {
                return Outcome::Info("No PR chain detected".to_string());
            },
        };
        let (target, index) = if to_parent {
            if chain.is_root() {
                return Outcome::Info("Already at the root PR (no parent)".to_string());
            }
            match chain.parent() {
                Some(p) => (p.clone(), chain.current_index - 1),
                None => {
                    return Outcome::Info("No parent PR found".to_string());
                },
            }
        } else {
            if chain.is_tip() {
                return Outcome::Info("Already at the tip PR (no child)".to_string());
            }
            let len = chain.chain.len();
            match chain.child() {
                Some(c) => {
                    assert(chain.current_index + 1 < len);
                    (c.clone(), chain.current_index + 1)
                },
                None => {
                    return Outcome::Info("No child PR found".to_string());
                },
            }
        };
        match &self.current_pr {
            None => Outcome::Proceed(None),
            Some(pr) => {
                if self.mode == SidebarMode::PendingReview {
                    Outcome::Info("Chain navigation is disabled in pending review sidebar".to_string())
                } else {
                    Outcome::Proceed(
                        Some(ChainMove { target, index, owner: pr.owner.clone(), repo: pr.repo.clone() }),
                    )
                }
            },
        }
    }

    /// Keeps threads fetched ahead for pull request `number`.
    pub fn cache_threads(&mut self, number: u64, threads: Vec<CommentThread>)
        requires
            old(self).wf(),
        ensures
            final(self).wf(),
            final(self).pr_comment_cache@ == old(self).pr_comment_cache@.insert(number, threads),
            *final(self) == (PluginState { pr_comment_cache: final(self).pr_comment_cache, ..*old(self) }),
    {
        self.pr_comment_cache.insert(number, threads);
    }

    /// Keeps suites fetched ahead for pull request `number`.
    pub fn cache_suites(&mut self, number: u64, suites: Vec<CheckSuite>)
        requires
            old(self).wf(),
        ensures
            final(self).wf(),
            final(self).pr_workflow_cache@ == old(self).pr_workflow_cache@.insert(number, suites),
            *final(self) == (PluginState { pr_workflow_cache: final(self).pr_workflow_cache, ..*old(self) }),
    {
        self.pr_workflow_cache.insert(number, suites);
    }

    /// The threads kept for pull request `number`, copied, if any.
    pub fn cached_threads(&self, number: u64) -> (r: Option<Vec<CommentThread>>)
        ensures
            match r {
                Some(t) => self.pr_comment_cache@.contains_key(number) && same_threads(
                    t@,
                    self.pr_comment_cache@[number]@,
                ),
                None => !self.pr_comment_cache@.contains_key(number),
            },
    {
        match self.pr_comment_cache.get(&number) {
            Some(t) => Some(clone_threads(t)),
            None => None,
        }
    }

    /// The suites kept for pull request `number`, copied, if any.
    pub fn cached_suites(&self, number: u64) -> (r: Option<Vec<CheckSuite>>)
        ensures
            match r {
                Some(t) => self.pr_workflow_cache@.contains_key(number) && same_suites(
                    t@,
                    self.pr_workflow_cache@[number]@,
                ),
                None => !self.pr_workflow_cache@.contains_key(number),
            },
    {
        match self.pr_workflow_cache.get(&number) {
            Some(t) => Some(clone_suites(t)),
            None => None,
        }
    }

    /// Shows the threads of pull request `number` of the chain, now at `new_index`: they are
    /// kept in the cache and shown under the chain header, which now marks that pull request
    /// as the one being viewed.
    pub fn show_chain_threads(&mut self, number: u64, threads: Vec<CommentThread>, new_index: usize)
        requires
            old(self).wf(),
            roots_fit(threads@),
        ensures
            final(self).wf(),
            final(self).threads@ == threads@,
            cached_as(final(self).pr_comment_cache@, old(self).pr_comment_cache@, number),
            same_threads(final(self).pr_comment_cache@[number]@, threads@),
            final(self).buffer@.collapsed == resolved_set(threads@),
            same_chain(final(self).buffer@.chain, final(self).pr_chain),
            final(self).navigator@.current == 0,
            !final(self).is_loading,
            final(self).pr_chain == match old(self).pr_chain {
                Some(c) => Some(PrChain { current_index: new_index, ..c }),
                None => None,
            },
            final(self).current_pr == old(self).current_pr,
            final(self).mode == old(self).mode,
            final(self).actions_buffer == old(self).actions_buffer,
            final(self).check_suites == old(self).check_suites,
            final(self).actions_navigator == old(self).actions_navigator,
            final(self).pr_workflow_cache == old(self).pr_workflow_cache,
    {
        self.pr_comment_cache.insert(number, clone_threads(&threads));
        if let Some(c) = &mut self.pr_chain {
            c.current_index = new_index;
        }
        let chain = clone_chain(self.pr_chain.as_ref());
        self.set_threads(threads, chain.as_ref());
    }

    /// Shows the suites of pull request `number` of the chain, now at `new_index`: they are
    /// kept in the cache and shown under the chain header, which now marks that pull request
    /// as the one being viewed.
    pub fn show_chain_suites(&mut self, number: u64, suites: Vec<CheckSuite>, new_index: usize)
        requires
            old(self).wf(),
        ensures
            final(self).wf(),
            final(self).check_suites@ == suites@,
            cached_as(final(self).pr_workflow_cache@, old(self).pr_workflow_cache@, number),
            same_suites(final(self).pr_workflow_cache@[number]@, suites@),
            same_chain(final(self).actions_buffer@.chain, final(self).pr_chain),
            final(self).actions_navigator@.current == 0,
            !final(self).is_loading,
            final(self).pr_chain == match old(self).pr_chain {
                Some(c) => Some(PrChain { current_index: new_index, ..c }),
                None => None,
            },
            final(self).threads == old(self).threads,
            final(self).navigator == old(self).navigator,
            final(self).buffer == old(self).buffer,
            final(self).current_pr == old(self).current_pr,
            final(self).mode == old(self).mode,
            final(self).pr_comment_cache == old(self).pr_comment_cache,
    {
        self.pr_workflow_cache.insert(number, clone_suites(&suites));
        if let Some(c) = &mut self.pr_chain {
            c.current_index = new_index;
        }
        let chain = clone_chain(self.pr_chain.as_ref());
        self.set_check_suites(suites, chain.as_ref());
    }

    /// Shows the threads just fetched for `current_pr`, keeps them in the cache, and records
    /// the pull request and its chain.
    pub fn show_fetched_threads(
        &mut self,
        threads: Vec<CommentThread>,
        current_pr: PullRequest,
        pr_chain: Option<PrChain>,
    )
        requires
            old(self).wf(),
            roots_fit(threads@),
        ensures
            final(self).wf(),
            final(self).threads@ == threads@,
            cached_as(final(self).pr_comment_cache@, old(self).pr_comment_cache@, current_pr.number),
            same_threads(final(self).pr_comment_cache@[current_pr.number]@, threads@),
            final(self).buffer@.collapsed == resolved_set(threads@),
            same_chain(final(self).buffer@.chain, pr_chain),
            final(self).navigator@.current == 0,
            !final(self).is_loading,
            final(self).current_pr == Some(current_pr),
            final(self).pr_chain == pr_chain,
            final(self).mode == old(self).mode,
            final(self).actions_buffer == old(self).actions_buffer,
            final(self).check_suites == old(self).check_suites,
            final(self).actions_navigator == old(self).actions_navigator,
            final(self).pr_workflow_cache == old(self).pr_workflow_cache,
    {
        self.pr_comment_cache.insert(current_pr.number, clone_threads(&threads));
        self.set_threads(threads, pr_chain.as_ref());
        self.current_pr = Some(current_pr);
        self.pr_chain = pr_chain;
    }

    /// Shows the suites just fetched for `current_pr`, keeps them in the cache, and records
    /// the pull request and its chain.
    pub fn show_fetched_suites(
        &mut self,
        suites: Vec<CheckSuite>,
        current_pr: PullRequest,
        pr_chain: Option<PrChain>,
    )
        requires
            old(self).wf(),
        ensures
            final(self).wf(),
            final(self).check_suites@ == suites@,
            cached_as(final(self).pr_workflow_cache@, old(self).pr_workflow_cache@, current_pr.number),
            same_suites(final(self).pr_workflow_cache@[current_pr.number]@, suites@),
            same_chain(final(self).actions_buffer@.chain, pr_chain),
            final(self).actions_navigator@.current == 0,
            !final(self).is_loading,
            final(self).current_pr == Some(current_pr),
            final(self).pr_chain == pr_chain,
            final(self).threads == old(self).threads,
            final(self).navigator == old(self).navigator,
            final(self).buffer == old(self).buffer,
            final(self).mode == old(self).mode,
            final(self).pr_comment_cache == old(self).pr_comment_cache,
    {
        self.pr_workflow_cache.insert(current_pr.number, clone_suites(&suites));
        self.set_check_suites(suites, pr_chain.as_ref());
        self.current_pr = Some(current_pr);
        self.pr_chain = pr_chain;
    }

    /// Shows the pending review threads just fetched for `current_pr`; pending reviews are
    /// shown without a chain and are not cached.
    pub fn show_pending_threads(&mut self, threads: Vec<CommentThread>, current_pr: PullRequest)
        requires
            old(self).wf(),
            roots_fit(threads@),
        ensures
            final(self).wf(),
            final(self).threads@ == threads@,
            final(self).buffer@.collapsed == resolved_set(threads@),
            final(self).buffer@.chain is None,
            final(self).navigator@.current == 0,
            !final(self).is_loading,
            final(self).current_pr == Some(current_pr),
            final(self).pr_chain is None,
            final(self).pr_comment_cache == old(self).pr_comment_cache,
            final(self).mode == old(self).mode,
            final(self).actions_buffer == old(self).actions_buffer,
            final(self).check_suites == old(self).check_suites,
            final(self).actions_navigator == old(self).actions_navigator,
            final(self).pr_workflow_cache == old(self).pr_workflow_cache,
    {
        self.set_threads(threads, None);
        self.current_pr = Some(current_pr);
        self.pr_chain = None;
    }

    /// The pull request to fetch again in the current mode; its cached threads are dropped.
    pub fn refresh_target(&mut self) -> (r: Outcome<(SidebarMode, PullRequest)>)
        requires
            old(self).wf(),
        ensures
            final(self).wf(),
            old(self).is_loading ==> is_info(r, "Still loading..."@) && *final(self) == *old(self),
            !old(self).is_loading && old(self).current_pr is None ==> is_warn(r, "No PR loaded"@)
                && *final(self) == *old(self),
            !old(self).is_loading && old(self).current_pr is Some ==> {
                let pr = old(self).current_pr.unwrap();
                &&& r matches Outcome::Proceed((mode, p)) && mode == old(self).mode && p == pr
                &&& final(self).pr_comment_cache@ == old(self).pr_comment_cache@.remove(pr.number)
                &&& *final(self) == (PluginState {
                    pr_comment_cache: final(self).pr_comment_cache,
                    ..*old(self)
                })
            },
    {
        if self.is_loading {
            return Outcome::Info("Still loading...".to_string());
        }
        let pr = match &self.current_pr {
            Some(pr) => pr.clone(),
            None => {
                return Outcome::Warn("No PR loaded".to_string());
            },
        };
        self.pr_comment_cache.remove(&pr.number);
        Outcome::Proceed((self.mode, pr))
    }

    /// The checks made before the selected comment is looked at for an edit or a deletion.
    /// When they pass, tells whether the user's login is needed (in comments mode).
    pub fn comment_precheck(&self, action: CommentAction) -> (r: Outcome<bool>)
        requires
            self.wf(),
        ensures
            comment_prechecked(*self, action, r),
            passes_precheck(*self) ==> (r matches Outcome::Proceed(b) && b == (self.mode
                == SidebarMode::Comments)),
    {
        if self.is_loading {
            return Outcome::Info("Still loading...".to_string());
        }
        if self.mode == SidebarMode::Actions {
            let msg = match action {
                CommentAction::Edit => "Edit comment works in Comments and Pending Review sidebars",
                CommentAction::Delete => "Delete comment works in Comments and Pending Review sidebars",
            };
            return Outcome::Info(msg.to_string());
        }
        if self.navigator.current_index() >= self.threads.len() {
            return match action {
                CommentAction::Edit => Outcome::Warn("No comment selected".to_string()),
                CommentAction::Delete => Outcome::Fail("No comment selected".to_string()),
            };
        }
        Outcome::Proceed(self.mode == SidebarMode::Comments)
    }

    /// The comment that an edit or a deletion goes to: the root of the selected thread.
    /// `login` is the user's login, asked for in comments mode.
    pub fn comment_target(&self, action: CommentAction, login: Option<&str>) -> (r: Outcome<EditTarget>)
        requires
            self.wf(),
        ensures
            comment_prechecked(*self, action, r),
            passes_precheck(*self) ==> target_of(
                self.threads@[self.navigator@.current].root,
                self.mode,
                action,
                opt_view(login),
                r,
            ),
    {
        match self.comment_precheck(action) {
            Outcome::Proceed(_) => {},
            Outcome::Info(m) => {
                return Outcome::Info(m);
            },
            Outcome::Warn(m) => {
                return Outcome::Warn(m);
            },
            Outcome::Fail(m) => {
                return Outcome::Fail(m);
            },
        }
        let idx = self.navigator.current_index();
        let thread = &self.threads[idx];
        let own = match action {
            CommentAction::Edit => "You can only edit your own comments",
            CommentAction::Delete => "You can only delete your own comments",
        };
        match &thread.root {
            Comment::Review(rc) => {
                if let Some(l) = login {
                    if !str_eq(rc.user.login.as_str(), l) {
                        return Outcome::Info(own.to_string());
                    }
                }
                match &rc.node_id {
                    Some(id) => Outcome::Proceed(
                        EditTarget {
                            node_id: id.clone(),
                            body: rc.body.clone(),
                            kind: EditableCommentKind::Review,
                        },
                    ),
                    None => Outcome::Fail("Review comment node ID is missing".to_string()),
                }
            },
            Comment::Issue(ic) => {
                if self.mode != SidebarMode::Comments {
                    let msg = match action {
                        CommentAction::Edit => "Selected item is not editable in this mode",
                        CommentAction::Delete => "Selected item is not deletable in this mode",
                    };
                    return Outcome::Info(msg.to_string());
                }
                if let Some(l) = login {
                    if !str_eq(ic.user.login.as_str(), l) {
                        return Outcome::Info(own.to_string());
                    }
                }
                match &ic.node_id {
                    Some(id) => Outcome::Proceed(
                        EditTarget {
                            node_id: id.clone(),
                            body: ic.body.clone(),
                            kind: EditableCommentKind::Issue,
                        },
                    ),
                    None => Outcome::Fail("Issue comment node ID is missing".to_string()),
                }
            },
        }
    }

    /// The thread to reply to: the id of the selected thread, when it is a review thread.
    pub fn reply_target(&self) -> (r: Outcome<String>)
        requires
            self.wf(),
        ensures
            self.is_loading ==> is_info(r, "Still loading..."@),
            !self.is_loading && self.mode != SidebarMode::Comments ==> is_info(
                r,
                "Thread reply only works in Comments mode"@,
            ),
            !self.is_loading && self.mode == SidebarMode::Comments ==> {
                let i = self.navigator@.current;
                if i >= self.threads@.len() {
                    is_warn(r, "No thread selected"@)
                } else {
                    let t = self.threads@[i];
                    if t.root is Review && t.thread_id is Some {
                        r matches Outcome::Proceed(id) && id@ == t.thread_id.unwrap()@
                    } else {
                        is_info(r, "Cannot reply to issue comments or threads without thread ID"@)
                    }
                }
            },
    {
        if self.is_loading {
            return Outcome::Info("Still loading...".to_string());
        }
        if self.mode != SidebarMode::Comments {
            return Outcome::Info("Thread reply only works in Comments mode".to_string());
        }
        let idx = self.navigator.current_index();
        if idx >= self.threads.len() {
            return Outcome::Warn("No thread selected".to_string());
        }
        let thread = &self.threads[idx];
        match (&thread.root, &thread.thread_id) {
            (Comment::Review(_), Some(id)) => Outcome::Proceed(id.clone()),
            _ => Outcome::Info(
                "Cannot reply to issue comments or threads without thread ID".to_string(),
            ),
        }
    }
}

/// Jumping from a suite is decided by its first run alone: two suites whose first runs
/// have the same link lead to the same place whatever runs follow. With a link, the jump
/// opens that link in the browser ("silent !open '<link>'"); a first run without a link
/// gives a note that no link is available, and a suite without runs a note that it has none.
pub proof fn lemma_suite_jump_first_run(
    a: CheckSuite,
    b: CheckSuite,
    r: Outcome<Option<JumpTarget>>,
)
    ensures
        a.check_runs@.len() > 0 && b.check_runs@.len() > 0 && a.check_runs@[0].details_url
            == b.check_runs@[0].details_url ==> (suite_jump(a, r) <==> suite_jump(b, r)),
        a.check_runs@.len() > 0 ==> match a.check_runs@[0].details_url {
            Some(url) => suite_jump(a, r) <==> (r matches Outcome::Proceed(
                Some(JumpTarget::Url(command)),
            ) && command@ == "silent !open '"@ + url@ + "'"@),
            None => suite_jump(a, r) <==> (r matches Outcome::Info(m) && m@
                == "No URL available for this workflow"@),
        },
        a.check_runs@.len() == 0 ==> (suite_jump(a, r) <==> (r matches Outcome::Info(m) && m@
            == "No check runs in this suite"@)),
{
}

/// Jumping from a review comment that has a line opens its file with "edit <path>" and
/// goes to that line; a review comment without a line (outdated) and an issue comment
/// have no place to go, and the note says so.
pub proof fn lemma_comment_jump_location(c: Comment, mode: SidebarMode, r: Outcome<Option<JumpTarget>>)
    ensures
        match c {
            Comment::Review(rc) => match rc.line {
                Some(l) => comment_jump(c, mode, r) <==> (r matches Outcome::Proceed(
                    Some(JumpTarget::File { path: p, command, line: n }),
                ) && p@ == rc.path@ && command@ == "edit "@ + rc.path@ && n == l),
                None => comment_jump(c, mode, r) ==> r is Info,
            },
            Comment::Issue(_) => comment_jump(c, mode, r) ==> r is Info,
        },
{
}

} // verus!
