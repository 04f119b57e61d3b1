//! Lines shared by the sidebars: rules, the chain header, and the blocks of comments.
use vstd::prelude::*;
use crate::github::pr::{PrChain, PrInfo};
use crate::text::{decimal, joined, lines_of, push_char, push_decimal, push_repeated, repeated,
    split_lines, views, join_strings, lemma_views_push, lemma_views_add};
use crate::types::comment::{Comment, ReviewComment};
use crate::ui::markup::{clean_body, cleaned_body};
use crate::clock::UtcTime;
use crate::ui::relative_time::{age_text, age_text_at, elapsed_seconds};

verus! {

broadcast use vstd::string::group_string_axioms;

/// The heavy rule that frames every block: 47 times `━`.
pub open spec fn heavy_rule() -> Seq<char> {
    repeated('━', 47)
}

/// The light rule under a comment's header: 47 times `─`.
pub open spec fn light_rule() -> Seq<char> {
    repeated('─', 47)
}

/// `text` after `prefix`.
pub fn prefixed_line(prefix: &str, text: &str) -> (s: String)
    ensures
        s@ == prefix@ + text@,
{
    let mut s = String::from_str(prefix);
    s.append(text);
    s
}

/// A rule of 47 times `c` after `prefix`.
pub fn rule_line(prefix: &str, c: char) -> (s: String)
    ensures
        s@ == prefix@ + repeated(c, 47),
{
    let mut s = String::from_str(prefix);
    push_repeated(&mut s, c, 47);
    s
}

/// A rule of 47 times `c`.
pub fn rule(c: char) -> (s: String)
    ensures
        s@ == repeated(c, 47),
{
    let mut s = String::new();
    push_repeated(&mut s, c, 47);
    assert(s@ =~= repeated(c, 47));
    s
}

// ---------------------------------------------------------------------------
// Chain header
// ---------------------------------------------------------------------------

/// `#<number>`, marked when it is the pull request being viewed.
pub open spec fn chain_part(pr: PrInfo, viewing: bool) -> Seq<char> {
    "#"@ + decimal(pr.number as nat) + if viewing {
        " (viewing)"@
    } else {
        Seq::empty()
    }
}

/// The base branch of the root, then every pull request of the chain.
pub open spec fn chain_parts(chain: PrChain) -> Seq<Seq<char>> {
    seq![chain.chain@[0].base_ref@] + Seq::new(
        chain.chain@.len(),
        |i: int| chain_part(chain.chain@[i], i == chain.current_index),
    )
}

/// The chain header: only for a chain of more than one pull request.
pub open spec fn chain_header_lines(chain: Option<PrChain>) -> Seq<Seq<char>> {
    match chain {
        Some(c) => if c.chain@.len() > 1 {
            seq![heavy_rule(), "PR Chain: "@ + joined(chain_parts(c), " ← "@), heavy_rule()]
        } else {
            Seq::empty()
        },
        None => Seq::empty(),
    }
}

/// The lines of the chain header.
pub fn render_chain_header(chain: &Option<PrChain>) -> (lines: Vec<String>)
    ensures
        views(lines@) == chain_header_lines(*chain),
{
    let mut lines: Vec<String> = Vec::new();
    match chain {
        Some(c) => {
            if c.chain.len() > 1 {
                lines.push(rule('━'));
                let mut parts: Vec<String> = Vec::new();
                parts.push(c.chain[0].base_ref.clone());
                let n = c.chain.len();
                let mut i: usize = 0;
                while i < n
                    invariant
                        n == c.chain@.len(),
                        i <= n,
                        views(parts@) == chain_parts(*c).take(i + 1),
                    decreases n - i,
                {
                    let mut part = String::from_str("#");
                    push_decimal(&mut part, c.chain[i].number);
                    if i == c.current_index {
                        part.append(" (viewing)");
                    }
                    assert(part@ =~= chain_part(c.chain@[i as int], i == c.current_index));
                    let ghost before = parts@;
                    parts.push(part);
                    proof {
                        lemma_views_push(before, part);
                        assert(chain_parts(*c)[i + 1] == chain_part(
                            c.chain@[i as int],
                            i == c.current_index,
                        ));
                        assert(chain_parts(*c).take(i + 2) =~= chain_parts(*c).take(i + 1).push(
                            chain_parts(*c)[i + 1],
                        ));
                    }
                    i = i + 1;
                }
                assert(chain_parts(*c).take(n + 1) =~= chain_parts(*c));
                let mut header = String::from_str("PR Chain: ");
                let joined_parts = join_strings(&parts, " ← ");
                header.append(joined_parts.as_str());
                let ghost l0 = lines@;
                lines.push(header);
                let ghost l1 = lines@;
                let last = rule('━');
                lines.push(last);
                proof {
                    lemma_views_push(l0, header);
                    lemma_views_push(l1, last);
                    assert(views(seq![]) =~= Seq::<Seq<char>>::empty());
                    assert(l0.len() == 1);
                    assert(views(l0) =~= seq![heavy_rule()]) by {
                        assert(views(l0)[0] == l0[0]@);
                    }
                }
                assert(views(lines@) =~= chain_header_lines(*chain));
            } else {
                assert(views(lines@) =~= chain_header_lines(*chain));
            }
        },
        None => {
            assert(views(lines@) =~= chain_header_lines(*chain));
        },
    }
    lines
}

// ---------------------------------------------------------------------------
// Comment blocks
// ---------------------------------------------------------------------------

/// The state shown after a review comment's location.
pub open spec fn status_suffix(rc: ReviewComment, resolved: bool) -> Seq<char> {
    if resolved {
        " ✓ [resolved]"@
    } else if rc.spec_is_line_deleted() {
        " [outdated]"@
    } else {
        Seq::empty()
    }
}

/// The header line of a comment.
pub open spec fn header_text(c: Comment, resolved: bool) -> Seq<char> {
    match c {
        Comment::Review(rc) => match rc.spec_navigation_line() {
            Some(n) => "📝 Review Comment · "@ + rc.path@ + ":"@ + decimal(n as nat)
                + status_suffix(rc, resolved),
            None => "📝 Review Comment · "@ + rc.path@ + status_suffix(rc, resolved),
        },
        Comment::Issue(_) => "💬 Issue Comment"@,
    }
}

/// Every line after `prefix`.
pub open spec fn prefixed(prefix: Seq<char>, lines: Seq<Seq<char>>) -> Seq<Seq<char>> {
    lines.map_values(|l: Seq<char>| prefix + l)
}

/// The body lines of a comment: its cleaned lines, or one blank line for an empty body.
pub open spec fn body_block(prefix: Seq<char>, body: Seq<char>) -> Seq<Seq<char>> {
    let ls = lines_of(cleaned_body(body));
    if ls.len() == 0 {
        seq![prefix + " "@]
    } else {
        prefixed(prefix, ls)
    }
}

/// The block of a comment seen at time `now`: rule, header, author and age, light rule,
/// body, rule; every line after `prefix`.
pub open spec fn comment_block(c: Comment, prefix: Seq<char>, resolved: bool, now: UtcTime) -> Seq<
    Seq<char>,
> {
    seq![
        prefix + heavy_rule(),
        prefix + header_text(c, resolved),
        prefix + "@"@ + c.spec_author() + " • "@ + age_text(elapsed_seconds(now, (c.spec_created_at(), c.spec_created_nanos())), true),
        prefix + light_rule(),
    ] + body_block(prefix, c.spec_body()) + seq![prefix + heavy_rule()]
}

fn render_header(comment: &Comment, is_resolved: bool) -> (s: String)
    ensures
        s@ == header_text(*comment, is_resolved),
{
    match comment {
        Comment::Review(rc) => {
            let mut s = String::from_str("📝 Review Comment · ");
            s.append(rc.path.as_str());
            match rc.navigation_line() {
                Some(n) => {
                    s.append(":");
                    push_decimal(&mut s, n as u64);
                },
                None => {},
            }
            if is_resolved {
                s.append(" ✓ [resolved]");
            } else if rc.is_line_deleted() {
                s.append(" [outdated]");
            }
            assert(s@ =~= header_text(*comment, is_resolved));
            s
        },
        Comment::Issue(_) => String::from_str("💬 Issue Comment"),
    }
}

/// The lines of a comment block, every line after `prefix`.
pub fn render_comment_lines_with_prefix(
    comment: &Comment,
    prefix: &str,
    is_resolved: bool,
    now: UtcTime,
) -> (lines: Vec<String>)
    ensures
        views(lines@) == comment_block(*comment, prefix@, is_resolved, now),
{
    let mut lines: Vec<String> = Vec::new();
    let l1 = rule_line(prefix, '━');
    let header = render_header(comment, is_resolved);
    let l2 = prefixed_line(prefix, header.as_str());
    let mut who = String::from_str(prefix);
    who.append("@");
    who.append(comment.author());
    who.append(" • ");
    let age = age_text_at(now, (comment.created_at(), comment.created_nanos()), true);
    who.append(age.as_str());
    let l4 = rule_line(prefix, '─');
    lines.push(l1);
    lines.push(l2);
    lines.push(who);
    lines.push(l4);
    let ghost head = views(lines@);
    assert(head =~= seq![
        prefix@ + heavy_rule(),
        prefix@ + header_text(*comment, is_resolved),
        prefix@ + "@"@ + comment.spec_author() + " • "@ + age_text(elapsed_seconds(now, (comment.spec_created_at(), comment.spec_created_nanos())), true),
        prefix@ + light_rule(),
    ]) by {
        assert(head[0] == lines@[0]@);
        assert(head[1] == lines@[1]@);
        assert(head[2] == lines@[2]@);
        assert(head[3] == lines@[3]@);
        assert(who@ =~= prefix@ + "@"@ + comment.spec_author() + " • "@ + age_text(elapsed_seconds(now, (comment.spec_created_at(), comment.spec_created_nanos())), true));
    }
    let cleaned = clean_body(comment.body());
    let body_lines = split_lines(cleaned.as_str());
    if body_lines.len() == 0 {
        lines.push(prefixed_line(prefix, " "));
        assert(views(lines@) =~= head + body_block(prefix@, comment.spec_body()));
    } else {
        let n = body_lines.len();
        let mut i: usize = 0;
        while i < n
            invariant
                n == body_lines@.len(),
                i <= n,
                views(body_lines@) == lines_of(cleaned_body(comment.spec_body())),
                views(lines@) == head + prefixed(prefix@, views(body_lines@).take(i as int)),
            decreases n - i,
        {
            let ghost before = lines@;
            let line = prefixed_line(prefix, body_lines[i].as_str());
            lines.push(line);
            proof {
                lemma_views_push(before, line);
                assert(views(body_lines@)[i as int] == body_lines@[i as int]@);
                assert(prefixed(prefix@, views(body_lines@).take(i + 1)) =~= prefixed(
                    prefix@,
                    views(body_lines@).take(i as int),
                ).push(prefix@ + body_lines@[i as int]@));
            }
            assert(views(lines@) =~= head + prefixed(prefix@, views(body_lines@).take(i + 1)));
            i = i + 1;
        }
        assert(views(body_lines@).take(n as int) =~= views(body_lines@));
    }
    let ghost with_body = lines@;
    let last = rule_line(prefix, '━');
    lines.push(last);
    proof {
        lemma_views_push(with_body, last);
    }
    assert(views(lines@) =~= comment_block(*comment, prefix@, is_resolved, now));
    lines
}

/// A comment block has as many lines as the comment's height: the five fixed lines and the
/// lines of the cleaned body, at least one.
pub proof fn lemma_comment_block_len(c: Comment, prefix: Seq<char>, resolved: bool, now: UtcTime)
    ensures
        comment_block(c, prefix, resolved, now).len() == c.spec_height(),
        c.spec_height() >= 6,
{
}

/// The header line of a review comment's block: after the prefix, "📝 Review Comment · "
/// and the path; then ":" and the line it points at (its line, else its original line)
/// when it has one; then " ✓ [resolved]" in a resolved thread, else " [outdated]" when the
/// comment had a line that is gone (line none, original line some), else nothing.
pub proof fn lemma_review_header(rc: ReviewComment, prefix: Seq<char>, resolved: bool, now: UtcTime)
    ensures
        ({
            let location = match rc.line {
                Some(l) => ":"@ + decimal(l as nat),
                None => match rc.original_line {
                    Some(o) => ":"@ + decimal(o as nat),
                    None => Seq::empty(),
                },
            };
            let mark = if resolved {
                " ✓ [resolved]"@
            } else if rc.line is None && rc.original_line is Some {
                " [outdated]"@
            } else {
                Seq::empty()
            };
            comment_block(Comment::Review(rc), prefix, resolved, now)[1] == prefix
                + "📝 Review Comment · "@ + rc.path@ + location + mark
        }),
{
    let c = Comment::Review(rc);
    let h = header_text(c, resolved);
    assert(comment_block(c, prefix, resolved, now)[1] == prefix + h);
    match rc.line {
        Some(l) => {
            assert(h == "📝 Review Comment · "@ + rc.path@ + (":"@ + decimal(l as nat))
                + status_suffix(rc, resolved));
        },
        None => match rc.original_line {
            Some(o) => {
                assert(h == "📝 Review Comment · "@ + rc.path@ + (":"@ + decimal(o as nat))
                    + status_suffix(rc, resolved));
            },
            None => {
                assert(h == "📝 Review Comment · "@ + rc.path@ + Seq::<char>::empty()
                    + status_suffix(rc, resolved));
            },
        },
    }
}

/// The chain header of a chain of two or more pull requests: a heavy rule, then
/// "PR Chain: " with the root's base branch followed by "#<number>" of each pull request
/// in order, joined by " ← ", where the viewed one alone carries " (viewing)"; then a heavy
/// rule. A single pull request, or none, has no header.
pub proof fn lemma_chain_header_marks_viewed(chain: Option<PrChain>)
    ensures
        match chain {
            Some(c) => if c.chain@.len() > 1 {
                chain_header_lines(chain) == seq![
                    heavy_rule(),
                    "PR Chain: "@ + joined(
                        seq![c.chain@[0].base_ref@] + Seq::new(
                            c.chain@.len(),
                            |i: int|
                                "#"@ + decimal(c.chain@[i].number as nat) + if i
                                    == c.current_index {
                                    " (viewing)"@
                                } else {
                                    ""@
                                },
                        ),
                        " ← "@,
                    ),
                    heavy_rule(),
                ]
            } else {
                chain_header_lines(chain).len() == 0
            },
            None => chain_header_lines(chain).len() == 0,
        },
{
    reveal_strlit("");
    if let Some(c) = chain {
        if c.chain@.len() > 1 {
            let mine = seq![c.chain@[0].base_ref@] + Seq::new(
                c.chain@.len(),
                |i: int|
                    "#"@ + decimal(c.chain@[i].number as nat) + if i == c.current_index {
                        " (viewing)"@
                    } else {
                        ""@
                    },
            );
            assert(chain_parts(c) =~= mine);
        }
    }
}

} // verus!
