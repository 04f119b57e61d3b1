//! What the editor is asked to do for replies, reviews and edits of comments.
use vstd::prelude::*;
use crate::text::{is_blank_str, join_strings, joined, lines_of, replace_str, replaced, split_lines,
    trimmed, views};

verus! {

broadcast use vstd::string::group_string_axioms;

/// The text of an edited comment: the lines of the editor joined by new lines, unless blank.
pub fn edit_body_from_lines(lines: &Vec<String>) -> (r: Result<String, String>)
    ensures
        match r {
            Ok(body) => body@ == joined(views(lines@), "\n"@) && trimmed(body@).len() > 0,
            Err(e) => trimmed(joined(views(lines@), "\n"@)).len() == 0 && e@
                == "Comment body cannot be empty"@,
        },
{
    let body = join_strings(lines, "\n");
    if is_blank_str(body.as_str()) {
        return Err("Comment body cannot be empty".to_string());
    }
    Ok(body)
}

/// The lines an editor starts with for a comment: its lines, or one empty line.
pub fn edit_lines(body: &str) -> (lines: Vec<String>)
    ensures
        body@.len() == 0 ==> views(lines@) == seq![Seq::<char>::empty()],
        body@.len() > 0 ==> views(lines@) == lines_of(body@),
{
    if body.unicode_len() == 0 {
        let mut v: Vec<String> = Vec::new();
        v.push(String::new());
        assert(views(v@) =~= seq![Seq::<char>::empty()]);
        v
    } else {
        split_lines(body)
    }
}

/// A text made safe inside single quotes of a Lua string: `\` and `'` escaped.
pub open spec fn lua_quoted(s: Seq<char>) -> Seq<char> {
    replaced(replaced(s, "\\"@, "\\\\"@), "'"@, "\\'"@)
}

/// The editor command that opens the reply editor for a thread.
pub fn thread_reply_command(thread_id: &str) -> (cmd: String)
    ensures
        cmd@ == "lua require('neogh.thread_reply').open('"@ + lua_quoted(thread_id@) + "')"@,
{
    proof {
        reveal_strlit("\\");
        reveal_strlit("'");
    }
    let once = replace_str(thread_id, "\\", "\\\\");
    let escaped = replace_str(once.as_str(), "'", "\\'");
    let mut cmd = "lua require('neogh.thread_reply').open('".to_string();
    cmd.append(escaped.as_str());
    cmd.append("')");
    cmd
}

/// The editor command that opens the review submission editor for an event.
pub fn review_submit_command(event: &str) -> (cmd: String)
    ensures
        cmd@ == "lua require('neogh.review_submit').open('"@ + event@ + "')"@,
{
    let mut cmd = "lua require('neogh.review_submit').open('".to_string();
    cmd.append(event);
    cmd.append("')");
    cmd
}

} // verus!
