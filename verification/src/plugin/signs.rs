//! Review-comment signs: the file lines that review comments point at.
use vstd::prelude::*;
use crate::text::{str_eq, trim, trimmed};
use crate::types::comment::{Comment, CommentThread};

verus! {

broadcast use vstd::string::group_string_axioms;

/// The comments of the threads in display order: each root, then its replies.
pub open spec fn all_comments(ts: Seq<CommentThread>) -> Seq<Comment>
    decreases ts.len(),
{
    if ts.len() == 0 {
        Seq::empty()
    } else {
        all_comments(ts.drop_last()) + seq![ts.last().root] + ts.last().replies@
    }
}

/// Where a comment puts a sign in the code: a review comment's trimmed path and its
/// navigation line, when the path is not blank and the line is known and not zero.
pub open spec fn sign_of(c: Comment) -> Option<(Seq<char>, usize)> {
    match c {
        Comment::Review(rc) => {
            let path = trimmed(rc.path@);
            let line: usize = match rc.spec_navigation_line() {
                Some(l) => l as usize,
                None => 0,
            };
            if path.len() > 0 && line > 0 {
                Some((path, line))
            } else {
                None
            }
        },
        Comment::Issue(_) => None,
    }
}

/// The signs that comments put in the code.
pub open spec fn signs(cs: Seq<Comment>) -> Set<(Seq<char>, usize)>
    decreases cs.len(),
{
    if cs.len() == 0 {
        Set::empty()
    } else {
        match sign_of(cs.last()) {
            Some(m) => signs(cs.drop_last()).insert(m),
            None => signs(cs.drop_last()),
        }
    }
}

/// The signs of a list, as texts and lines.
pub open spec fn marks_view(v: Seq<(String, usize)>) -> Seq<(Seq<char>, usize)> {
    v.map_values(|m: (String, usize)| (m.0@, m.1))
}

proof fn lemma_signs_push(cs: Seq<Comment>, c: Comment)
    ensures
        signs(cs.push(c)) == match sign_of(c) {
            Some(m) => signs(cs).insert(m),
            None => signs(cs),
        },
{
    assert(cs.push(c).drop_last() =~= cs);
}

/// Adds the sign of a comment, unless the list has it already.
fn add_sign(marks: &mut Vec<(String, usize)>, c: &Comment)
    requires
        marks_view(old(marks)@).no_duplicates(),
    ensures
        marks_view(final(marks)@).no_duplicates(),
        forall|m: (Seq<char>, usize)|
            marks_view(final(marks)@).contains(m) <==> (marks_view(old(marks)@).contains(m)
                || sign_of(*c) == Some(m)),
{
    let rc = match c {
        Comment::Review(rc) => rc,
        Comment::Issue(_) => {
            return;
        },
    };
    let path = trim(rc.path.as_str());
    let line: usize = match rc.navigation_line() {
        Some(l) => l as usize,
        None => 0,
    };
    if path.unicode_len() == 0 || line == 0 {
        return;
    }
    let ghost m = (path@, line);
    assert(sign_of(*c) == Some(m));
    let mut k: usize = 0;
    while k < marks.len()
        invariant
            k <= marks@.len(),
            marks@ == old(marks)@,
            marks_view(old(marks)@).no_duplicates(),
            sign_of(*c) == Some(m),
            m == (path@, line),
            forall|j: int| 0 <= j < k ==> marks_view(marks@)[j] != m,
        decreases marks@.len() - k,
    {
        if marks[k].1 == line && str_eq(marks[k].0.as_str(), path.as_str()) {
            assert(marks_view(marks@)[k as int] == m);
            return;
        }
        k = k + 1;
    }
    let ghost before = marks@;
    marks.push((path, line));
    proof {
        assert(marks_view(marks@) =~= marks_view(before).push(m));
        assert forall|x: (Seq<char>, usize)|
            marks_view(marks@).contains(x) <==> (marks_view(before).contains(x) || x == m) by {
            if marks_view(marks@).contains(x) {
                let j = choose|j: int| 0 <= j < marks_view(marks@).len() && marks_view(marks@)[j] == x;
                if j < marks_view(before).len() {
                    assert(marks_view(before)[j] == x);
                }
            }
            if marks_view(before).contains(x) {
                let j = choose|j: int| 0 <= j < marks_view(before).len() && marks_view(before)[j] == x;
                assert(marks_view(marks@)[j] == x);
            }
            if x == m {
                assert(marks_view(marks@)[marks_view(before).len() as int] == x);
            }
        }
        assert(before == old(marks)@);
        assert forall|x: (Seq<char>, usize)|
            marks_view(marks@).contains(x) <==> (marks_view(old(marks)@).contains(x) || sign_of(*c)
                == Some(x)) by {
            assert(marks_view(marks@).contains(x) <==> (marks_view(before).contains(x) || x == m));
            assert((sign_of(*c) == Some(x)) == (x == m));
        }
    }
}

/// Where review comments put signs in the code: each file path (trimmed) and line, once,
/// in the order the comments are shown.
pub fn review_comment_lines(threads: &Vec<CommentThread>) -> (marks: Vec<(String, usize)>)
    ensures
        marks_view(marks@).no_duplicates(),
        forall|m: (Seq<char>, usize)|
            marks_view(marks@).contains(m) <==> #[trigger] signs(all_comments(threads@)).contains(m),
{
    let mut marks: Vec<(String, usize)> = Vec::new();
    let mut i: usize = 0;
    while i < threads.len()
        invariant
            i <= threads@.len(),
            marks_view(marks@).no_duplicates(),
            forall|m: (Seq<char>, usize)|
                marks_view(marks@).contains(m) <==> #[trigger] signs(
                    all_comments(threads@.take(i as int)),
                ).contains(m),
        decreases threads@.len() - i,
    {
        let t = &threads[i];
        let ghost done = all_comments(threads@.take(i as int));
        add_sign(&mut marks, &t.root);
        proof {
            lemma_signs_push(done, t.root);
        }
        let mut j: usize = 0;
        while j < t.replies.len()
            invariant
                j <= t.replies@.len(),
                marks_view(marks@).no_duplicates(),
                forall|m: (Seq<char>, usize)|
                    marks_view(marks@).contains(m) <==> #[trigger] signs(
                        done.push(t.root) + t.replies@.take(j as int),
                    ).contains(m),
            decreases t.replies@.len() - j,
        {
            add_sign(&mut marks, &t.replies[j]);
            proof {
                assert(done.push(t.root) + t.replies@.take(j + 1) =~= (done.push(t.root)
                    + t.replies@.take(j as int)).push(t.replies@[j as int]));
                lemma_signs_push(done.push(t.root) + t.replies@.take(j as int), t.replies@[j as int]);
            }
            j = j + 1;
        }
        proof {
            assert(threads@.take(i + 1).drop_last() =~= threads@.take(i as int));
            assert(done.push(t.root) + t.replies@.take(j as int) =~= all_comments(
                threads@.take(i + 1),
            ));
        }
        i = i + 1;
    }
    assert(threads@.take(threads@.len() as int) =~= threads@);
    marks
}

/// The line a review comment's sign stands on: its line, else its original line, else 0.
pub open spec fn sign_line(line: Option<u32>, original_line: Option<u32>) -> int {
    match line {
        Some(l) => l as int,
        None => match original_line {
            Some(o) => o as int,
            None => 0,
        },
    }
}

/// A review comment whose path is not blank once trimmed, and whose line (its line, else
/// its original line) is known and not zero, puts its sign at the trimmed path and that
/// line; any other comment, and every issue comment, puts none.
pub proof fn lemma_sign_of_comment(c: Comment)
    ensures
        match c {
            Comment::Review(rc) => {
                let n = sign_line(rc.line, rc.original_line);
                let p = trimmed(rc.path@);
                &&& (p.len() > 0 && n > 0) ==> sign_of(c) == Some((p, n as usize))
                &&& !(p.len() > 0 && n > 0) ==> sign_of(c).is_none()
            },
            Comment::Issue(_) => sign_of(c).is_none(),
        },
{
}

proof fn lemma_signs_members(cs: Seq<Comment>, m: (Seq<char>, usize))
    ensures
        signs(cs).contains(m) <==> exists|k: int| 0 <= k < cs.len() && #[trigger] sign_of(cs[k])
            == Some(m),
    decreases cs.len(),
{
    if cs.len() > 0 {
        let d = cs.drop_last();
        lemma_signs_members(d, m);
        if signs(cs).contains(m) {
            if sign_of(cs.last()) == Some(m) {
                assert(sign_of(cs[cs.len() - 1]) == Some(m));
            } else {
                let k = choose|k: int| 0 <= k < d.len() && #[trigger] sign_of(d[k]) == Some(m);
                assert(cs[k] == d[k]);
            }
        }
        if exists|k: int| 0 <= k < cs.len() && #[trigger] sign_of(cs[k]) == Some(m) {
            let k = choose|k: int| 0 <= k < cs.len() && #[trigger] sign_of(cs[k]) == Some(m);
            if k < d.len() {
                assert(d[k] == cs[k]);
            }
        }
    }
}

proof fn lemma_thread_comments_listed(ts: Seq<CommentThread>, i: int)
    requires
        0 <= i < ts.len(),
    ensures
        all_comments(ts).contains(ts[i].root),
        forall|j: int| 0 <= j < ts[i].replies@.len() ==> all_comments(ts).contains(
            #[trigger] ts[i].replies@[j],
        ),
    decreases ts.len(),
{
    let d = ts.drop_last();
    let a = all_comments(ts);
    let b = all_comments(d);
    if i == ts.len() - 1 {
        assert(a[b.len() as int] == ts[i].root);
        assert forall|j: int| 0 <= j < ts[i].replies@.len() implies a.contains(
            #[trigger] ts[i].replies@[j],
        ) by {
            assert(a[b.len() + 1 + j] == ts[i].replies@[j]);
        }
    } else {
        lemma_thread_comments_listed(d, i);
        assert(d[i] == ts[i]);
        let k = choose|k: int| 0 <= k < b.len() && b[k] == ts[i].root;
        assert(a[k] == b[k]);
        assert forall|j: int| 0 <= j < ts[i].replies@.len() implies a.contains(
            #[trigger] ts[i].replies@[j],
        ) by {
            assert(b.contains(d[i].replies@[j]));
            let k2 = choose|k2: int| 0 <= k2 < b.len() && b[k2] == d[i].replies@[j];
            assert(a[k2] == b[k2]);
        }
    }
}

/// The signs of the threads are those of their comments: every root and every reply that
/// puts a sign (a review comment with a path and a line other than zero, the line being
/// its original line where it has no line) has it among the signs, and every sign comes
/// from one of the comments.
pub proof fn lemma_thread_signs(ts: Seq<CommentThread>, i: int, m: (Seq<char>, usize))
    requires
        0 <= i < ts.len(),
    ensures
        sign_of(ts[i].root) == Some(m) ==> signs(all_comments(ts)).contains(m),
        forall|j: int|
            0 <= j < ts[i].replies@.len() && sign_of(#[trigger] ts[i].replies@[j]) == Some(m)
                ==> signs(all_comments(ts)).contains(m),
        signs(all_comments(ts)).contains(m) ==> exists|c: Comment|
            all_comments(ts).contains(c) && #[trigger] sign_of(c) == Some(m),
{
    let a = all_comments(ts);
    lemma_thread_comments_listed(ts, i);
    lemma_signs_members(a, m);
    if sign_of(ts[i].root) == Some(m) {
        let k = choose|k: int| 0 <= k < a.len() && a[k] == ts[i].root;
        assert(sign_of(a[k]) == Some(m));
    }
    assert forall|j: int|
        0 <= j < ts[i].replies@.len() && sign_of(#[trigger] ts[i].replies@[j]) == Some(m)
        implies signs(a).contains(m) by {
        assert(a.contains(ts[i].replies@[j]));
        let k = choose|k: int| 0 <= k < a.len() && a[k] == ts[i].replies@[j];
        assert(sign_of(a[k]) == Some(m));
    }
    if signs(a).contains(m) {
        let k = choose|k: int| 0 <= k < a.len() && #[trigger] sign_of(a[k]) == Some(m);
        assert(a.contains(a[k]));
    }
}

} // verus!
