//! Cursor tracking over a list of comments.
use vstd::prelude::*;
use crate::text::line_count;
use crate::ui::markup::clean_body;
use crate::types::comment::Comment;

verus! {

broadcast use vstd::string::group_string_axioms;

/// First line (0-based) of comment `i` when the comments `cs` are rendered one after another.
pub open spec fn line_start(cs: Seq<Comment>, i: int) -> int
    decreases i,
{
    if i <= 0 {
        0
    } else {
        line_start(cs, i - 1) + cs[i - 1].spec_height()
    }
}

/// Starts never decrease with the index.
pub proof fn lemma_line_start_monotone(cs: Seq<Comment>, i: int, j: int)
    requires
        i <= j,
    ensures
        line_start(cs, i) <= line_start(cs, j),
    decreases j - i,
{
    if i < j {
        lemma_line_start_monotone(cs, i, j - 1);
    }
}

/// The index that moving forward leads to: the next one, or the same at the last comment.
pub open spec fn forward_index(current: int, len: int) -> int {
    if current + 1 < len {
        current + 1
    } else {
        current
    }
}

/// The index that moving back leads to: the previous one, or the same at the first comment.
pub open spec fn back_index(current: int) -> int {
    if current > 0 {
        current - 1
    } else {
        current
    }
}

/// Moving forward and then back returns to where one was, unless one was already at the end.
pub proof fn lemma_forward_then_back(current: int, len: int)
    requires
        0 <= current,
        current + 1 < len,
    ensures
        back_index(forward_index(current, len)) == current,
{
}

/// Moving back and then forward returns to where one was, unless one was already at the start.
pub proof fn lemma_back_then_forward(current: int, len: int)
    requires
        0 < current < len,
    ensures
        forward_index(back_index(current), len) == current,
{
}

/// Whether the rendered comments fit in the line numbers of this machine.
pub fn lines_fit(comments: &Vec<Comment>) -> (b: bool)
    ensures
        b == (line_start(comments@, comments@.len() as int) <= usize::MAX),
{
    let mut total: usize = 0;
    let mut i: usize = 0;
    while i < comments.len()
        invariant
            i <= comments@.len(),
            total == line_start(comments@, i as int),
        decreases comments@.len() - i,
    {
        let cleaned = clean_body(comments[i].body());
        let n = line_count(cleaned.as_str());
        let h: usize = if n == 0 {
            6
        } else {
            match n.checked_add(5) {
                Some(h) => h,
                None => {
                    proof {
                        lemma_line_start_monotone(comments@, i + 1, comments@.len() as int);
                    }
                    return false;
                },
            }
        };
        match total.checked_add(h) {
            Some(t) => {
                total = t;
            },
            None => {
                proof {
                    lemma_line_start_monotone(comments@, i + 1, comments@.len() as int);
                }
                return false;
            },
        }
        i = i + 1;
    }
    true
}

/// What jumping to a comment does: open its file at its line (with this editor command),
/// or, for a comment without a location, the message that says why not.
pub fn jump_plan(comment: &Comment) -> (r: Result<(String, u32), String>)
    ensures
        match comment.spec_location() {
            Some((path, line)) => r matches Ok((cmd, l)) && cmd@ == "edit "@ + path && l == line,
            None => r matches Err(m) && m@ == if comment is Review {
                "Review comment has no line number"@
            } else {
                "Issue comments have no file location"@
            },
        },
{
    match comment.location() {
        Some((path, line)) => {
            let mut cmd = "edit ".to_string();
            cmd.append(path);
            Ok((cmd, line))
        },
        None => match comment {
            Comment::Review(_) => Err("Review comment has no line number".to_string()),
            Comment::Issue(_) => Err("Issue comments have no file location".to_string()),
        },
    }
}

/// What a navigator shows: its comments and the index of the current one.
pub struct NavigatorView {
    pub comments: Seq<Comment>,
    pub current: int,
}

/// The current index is in range (zero when there is nothing to select).
pub open spec fn index_in_range(v: NavigatorView) -> bool {
    if v.comments.len() == 0 {
        v.current == 0
    } else {
        0 <= v.current < v.comments.len()
    }
}

/// Tracks cursor position in comments.
/// Uses 0-based line numbers to match buffer rendering.
pub struct Navigator {
    comments: Vec<Comment>,
    current_index: usize,
    /// Start line (0-based) for each comment index
    line_map: Vec<usize>,
}

impl View for Navigator {
    type V = NavigatorView;

    closed spec fn view(&self) -> NavigatorView {
        NavigatorView { comments: self.comments@, current: self.current_index as int }
    }
}

impl Navigator {
    #[verifier::type_invariant]
    spec fn well_formed(self) -> bool {
        &&& self.line_map@.len() == self.comments@.len()
        &&& forall|i: int|
            0 <= i < self.line_map@.len() ==> #[trigger] self.line_map@[i] == line_start(
                self.comments@,
                i,
            )
        &&& line_start(self.comments@, self.comments@.len() as int) <= usize::MAX
        &&& index_in_range(self@)
    }

    fn build_line_map(comments: &Vec<Comment>) -> (map: Vec<usize>)
        requires
            line_start(comments@, comments@.len() as int) <= usize::MAX,
        ensures
            map@.len() == comments@.len(),
            forall|i: int| 0 <= i < map@.len() ==> #[trigger] map@[i] == line_start(comments@, i),
    {
        let mut map: Vec<usize> = Vec::new();
        let mut line: usize = 0;
        let mut i: usize = 0;
        while i < comments.len()
            invariant
                i <= comments@.len(),
                line_start(comments@, comments@.len() as int) <= usize::MAX,
                line == line_start(comments@, i as int),
                map@.len() == i,
                forall|k: int| 0 <= k < i ==> #[trigger] map@[k] == line_start(comments@, k),
            decreases comments@.len() - i,
        {
            map.push(line);
            proof {
                lemma_line_start_monotone(comments@, i + 1, comments@.len() as int);
            }
            line = line + comments[i].height();
            i = i + 1;
        }
        map
    }

    /// Create navigator from the same comments array used by the comment buffer
    pub fn new(comments: Vec<Comment>) -> (nav: Self)
        requires
            line_start(comments@, comments@.len() as int) <= usize::MAX,
        ensures
            nav@.comments == comments@,
            nav@.current == 0,
            index_in_range(nav@),
    {
        let line_map = Self::build_line_map(&comments);
        Navigator { comments, current_index: 0, line_map }
    }

    /// The selected comment, if there is one.
    pub fn current(&self) -> (c: Option<&Comment>)
        ensures
            match c {
                Some(c) => 0 <= self@.current < self@.comments.len() && *c
                    == self@.comments[self@.current],
                None => self@.comments.len() == 0,
            },
    {
        proof {
            use_type_invariant(self);
        }
        if self.current_index < self.comments.len() {
            Some(&self.comments[self.current_index])
        } else {
            None
        }
    }

    /// The index of the selected comment.
    pub fn current_index(&self) -> (i: usize)
        ensures
            i == self@.current,
    {
        self.current_index
    }

    /// Whether there are no comments.
    pub fn is_empty(&self) -> (b: bool)
        ensures
            b == (self@.comments.len() == 0),
    {
        self.comments.len() == 0
    }

    /// Moves to the next comment, staying on the last one.
    pub fn next(&mut self) -> (c: Option<&Comment>)
        ensures
            index_in_range(final(self)@),
            final(self)@.comments == old(self)@.comments,
            final(self)@.current == forward_index(old(self)@.current, old(self)@.comments.len() as int),
            match c {
                Some(c) => *c == final(self)@.comments[final(self)@.current],
                None => final(self)@.comments.len() == 0,
            },
    {
        proof {
            use_type_invariant(&*self);
        }
        if self.comments.len() == 0 {
            return None;
        }
        if self.current_index + 1 < self.comments.len() {
            self.current_index = self.current_index + 1;
        }
        Some(&self.comments[self.current_index])
    }

    /// Moves to the previous comment, staying on the first one.
    pub fn prev(&mut self) -> (c: Option<&Comment>)
        ensures
            index_in_range(final(self)@),
            final(self)@.comments == old(self)@.comments,
            final(self)@.current == back_index(old(self)@.current),
            match c {
                Some(c) => *c == final(self)@.comments[final(self)@.current],
                None => final(self)@.comments.len() == 0,
            },
    {
        proof {
            use_type_invariant(&*self);
        }
        if self.comments.len() == 0 {
            return None;
        }
        if self.current_index > 0 {
            self.current_index = self.current_index - 1;
        }
        Some(&self.comments[self.current_index])
    }

    /// Selects comment `index` when it exists; otherwise the selection stays.
    pub fn set_index(&mut self, index: usize) -> (c: Option<&Comment>)
        ensures
            index_in_range(final(self)@),
            final(self)@.comments == old(self)@.comments,
            final(self)@.current == if index < old(self)@.comments.len() {
                index as int
            } else {
                old(self)@.current
            },
            match c {
                Some(c) => *c == final(self)@.comments[final(self)@.current],
                None => final(self)@.comments.len() == 0,
            },
    {
        proof {
            use_type_invariant(&*self);
        }
        if index < self.comments.len() {
            self.current_index = index;
        }
        if self.current_index < self.comments.len() {
            Some(&self.comments[self.current_index])
        } else {
            None
        }
    }

    /// Get the start line (0-based) for a comment index
    pub fn line_for_index(&self, index: usize) -> (l: Option<usize>)
        ensures
            match l {
                Some(l) => index < self@.comments.len() && l == line_start(
                    self@.comments,
                    index as int,
                ),
                None => index >= self@.comments.len(),
            },
    {
        proof {
            use_type_invariant(self);
        }
        if index < self.line_map.len() {
            Some(self.line_map[index])
        } else {
            None
        }
    }

    /// Convert cursor line (0-based) to comment index
    pub fn index_for_line(&self, line: usize) -> (r: Option<usize>)
        ensures
            match r {
                Some(i) => i < self@.comments.len() && line_start(self@.comments, i as int) <= line
                    < line_start(self@.comments, i + 1),
                None => line >= line_start(self@.comments, self@.comments.len() as int),
            },
    {
        proof {
            use_type_invariant(self);
        }
        let n = self.line_map.len();
        let mut idx: usize = 0;
        while idx < n
            invariant
                n == self.line_map@.len() == self.comments@.len(),
                idx <= n,
                forall|i: int|
                    0 <= i < self.line_map@.len() ==> #[trigger] self.line_map@[i] == line_start(
                        self.comments@,
                        i,
                    ),
                line_start(self.comments@, n as int) <= usize::MAX,
                line >= line_start(self.comments@, idx as int),
            decreases n - idx,
        {
            let start_line = self.line_map[idx];
            proof {
                lemma_line_start_monotone(self.comments@, idx + 1, n as int);
            }
            let height = self.comments[idx].height();
            if line >= start_line && line < start_line + height {
                return Some(idx);
            }
            idx = idx + 1;
        }
        None
    }
}

/// The comment that starts at a line is the comment found at that line:
/// `index_for_line` undoes `line_for_index`.
pub proof fn lemma_start_line_finds_comment(cs: Seq<Comment>, i: int)
    requires
        0 <= i < cs.len(),
    ensures
        line_start(cs, i) <= line_start(cs, i) < line_start(cs, i + 1),
{
    assert(cs[i].spec_height() >= 6);
}

/// Different lines-ranges never overlap: a line belongs to at most one comment.
pub proof fn lemma_line_owner_unique(cs: Seq<Comment>, i: int, j: int, line: int)
    requires
        0 <= i < cs.len(),
        0 <= j < cs.len(),
        line_start(cs, i) <= line < line_start(cs, i + 1),
        line_start(cs, j) <= line < line_start(cs, j + 1),
    ensures
        i == j,
{
    if i < j {
        lemma_line_start_monotone(cs, i + 1, j);
    } else if j < i {
        lemma_line_start_monotone(cs, j + 1, i);
    }
}

} // verus!
