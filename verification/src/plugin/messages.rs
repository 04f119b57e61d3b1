//! The messages and placeholder lines that the sidebar shows.
use vstd::prelude::*;
use crate::text::{decimal, push_decimal, views};
use crate::types::mode::{mode_label, SidebarMode};
use crate::ui::render::{heavy_rule, rule};

verus! {

broadcast use vstd::string::group_string_axioms;

/// The message shown while a mode waits for GitHub.
pub open spec fn loading_message(mode: SidebarMode) -> Seq<char> {
    match mode {
        SidebarMode::Comments => "Loading PR comments..."@,
        SidebarMode::Actions => "Loading workflow status..."@,
        SidebarMode::PendingReview => "Loading pending review comments..."@,
    }
}

/// The lines shown while a mode waits for GitHub.
pub fn render_loading_lines(mode: SidebarMode) -> (lines: Vec<String>)
    ensures
        views(lines@) == seq![heavy_rule(), loading_message(mode), "Fetching from GitHub..."@, heavy_rule()],
{
    let msg = match mode {
        SidebarMode::Comments => "Loading PR comments...",
        SidebarMode::Actions => "Loading workflow status...",
        SidebarMode::PendingReview => "Loading pending review comments...",
    };
    let mut lines: Vec<String> = Vec::new();
    lines.push(rule('━'));
    lines.push(msg.to_string());
    lines.push("Fetching from GitHub...".to_string());
    lines.push(rule('━'));
    assert(views(lines@) =~= seq![heavy_rule(), loading_message(mode), "Fetching from GitHub..."@, heavy_rule()]);
    lines
}

/// The message shown after switching mode.
pub fn switched_message(mode: SidebarMode) -> (s: String)
    ensures
        s@ == "Switched to "@ + mode_label(mode) + " mode"@,
{
    let mut s = "Switched to ".to_string();
    s.append(mode.to_display());
    s.append(" mode");
    s
}

/// `Loaded` or `Refreshed`, as the messages after a fetch begin.
pub open spec fn fetch_verb(refreshed: bool) -> Seq<char> {
    if refreshed {
        "Refreshed "@
    } else {
        "Loaded "@
    }
}

/// The message shown once the threads of a pull request are shown.
pub fn threads_loaded_message(refreshed: bool, count: usize, number: u64, title: &str) -> (m: String)
    ensures
        m@ == fetch_verb(refreshed) + decimal(count as nat) + " thread(s) for PR #"@ + decimal(
            number as nat,
        ) + ": "@ + title@,
{
    let mut m = if refreshed {
        "Refreshed ".to_string()
    } else {
        "Loaded ".to_string()
    };
    push_decimal(&mut m, count as u64);
    m.append(" thread(s) for PR #");
    push_decimal(&mut m, number);
    m.append(": ");
    m.append(title);
    m
}

/// The message shown once the pending review comments of a pull request are shown.
pub fn pending_loaded_message(refreshed: bool, count: usize, number: u64) -> (m: String)
    ensures
        m@ == fetch_verb(refreshed) + decimal(count as nat) + " pending review comment(s) for PR #"@
            + decimal(number as nat),
{
    let mut m = if refreshed {
        "Refreshed ".to_string()
    } else {
        "Loaded ".to_string()
    };
    push_decimal(&mut m, count as u64);
    m.append(" pending review comment(s) for PR #");
    push_decimal(&mut m, number);
    m
}

/// The message shown once the workflow suites of a pull request are shown.
pub fn suites_loaded_message(count: usize, number: u64) -> (m: String)
    ensures
        m@ == "Loaded "@ + decimal(count as nat) + " workflow suite(s) for PR #"@ + decimal(
            number as nat,
        ),
{
    let mut m = "Loaded ".to_string();
    push_decimal(&mut m, count as u64);
    m.append(" workflow suite(s) for PR #");
    push_decimal(&mut m, number);
    m
}

/// The message shown after moving along the chain: the pull request, `workflow` in actions
/// mode, and the title when the data came from the cache.
pub fn chain_loaded_message(number: u64, workflow: bool, cached_title: Option<&str>) -> (m: String)
    ensures
        m@ == "Loaded PR #"@ + decimal(number as nat) + (if workflow {
            " workflow"@
        } else {
            Seq::<char>::empty()
        }) + match cached_title {
            Some(t) => " (cached): "@ + t@,
            None => Seq::<char>::empty(),
        },
{
    let mut m = "Loaded PR #".to_string();
    push_decimal(&mut m, number);
    let ghost before = m@;
    if workflow {
        m.append(" workflow");
    }
    assert(m@ =~= before + (if workflow {
        " workflow"@
    } else {
        Seq::<char>::empty()
    }));
    let ghost middle = m@;
    if let Some(t) = cached_title {
        m.append(" (cached): ");
        m.append(t);
    }
    assert(m@ =~= middle + match cached_title {
        Some(t) => " (cached): "@ + t@,
        None => Seq::<char>::empty(),
    });
    m
}

/// The message shown after a thread was collapsed or expanded.
pub fn collapse_message(index: usize, collapsed: bool) -> (m: String)
    ensures
        m@ == "Thread "@ + decimal(index as nat) + " collapsed: "@ + (if collapsed {
            "true"@
        } else {
            "false"@
        }),
{
    let mut m = "Thread ".to_string();
    push_decimal(&mut m, index as u64);
    m.append(" collapsed: ");
    m.append(if collapsed {
        "true"
    } else {
        "false"
    });
    m
}

} // verus!
