//! The workflow sidebar: check suites rendered to lines, with a map from lines to suites.
use vstd::prelude::*;
use crate::clock::UtcTime;
use crate::github::pr::PrChain;
use crate::github::workflow::{conclusion_label, status_label, CheckConclusion, CheckRun,
    CheckStatus, CheckSuite};
use crate::text::{views, lemma_views_push, lemma_views_add};
use crate::ui::relative_time::{age_text, age_text_at, elapsed_seconds};
use crate::ui::render::{chain_header_lines, heavy_rule, light_rule, render_chain_header, rule};

verus! {

broadcast use vstd::string::group_string_axioms;

/// The icon of a suite: failure, success, running, or anything else.
pub open spec fn suite_icon(s: CheckSuite) -> Seq<char> {
    if s.spec_is_failure() {
        "❌"@
    } else if s.spec_is_success() {
        "✅"@
    } else if s.spec_is_in_progress() {
        "🔄"@
    } else {
        "⚠️"@
    }
}

/// The icon of a check run: by its conclusion, else by its status.
pub open spec fn run_icon(r: CheckRun) -> Seq<char> {
    match r.conclusion {
        Some(CheckConclusion::Success) => "✅"@,
        Some(CheckConclusion::Failure) => "❌"@,
        Some(CheckConclusion::Skipped) => "⏭️"@,
        Some(CheckConclusion::Cancelled) => "🚫"@,
        Some(CheckConclusion::TimedOut) => "⏰"@,
        Some(CheckConclusion::ActionRequired) => "⚠️"@,
        Some(CheckConclusion::Neutral) => "⚪"@,
        Some(CheckConclusion::Unknown) => "❓"@,
        None => match r.status {
            CheckStatus::InProgress => "🔄"@,
            CheckStatus::Queued => "⏳"@,
            CheckStatus::Waiting => "⏳"@,
            CheckStatus::Pending => "⏳"@,
            CheckStatus::Requested => "📋"@,
            CheckStatus::Completed => "✓"@,
            CheckStatus::Unknown => "❓"@,
        },
    }
}

/// When a run completed, else when it started, else that it is pending.
pub open spec fn run_time(r: CheckRun, now: UtcTime) -> Seq<char> {
    match r.completed_at {
        Some(t) => "completed "@ + age_text(elapsed_seconds(now, t), false),
        None => match r.started_at {
            Some(t) => "started "@ + age_text(elapsed_seconds(now, t), false),
            None => "pending"@,
        },
    }
}

/// The line of a check run.
pub open spec fn run_line(r: CheckRun, now: UtcTime) -> Seq<char> {
    "  "@ + run_icon(r) + " "@ + r.name@ + " ("@ + run_time(r, now) + ")"@
}

/// The conclusion of a suite, or its status while it has none.
pub open spec fn suite_state(s: CheckSuite) -> Seq<char> {
    match s.conclusion {
        Some(c) => " ("@ + conclusion_label(c) + ")"@,
        None => " ("@ + status_label(s.status) + ")"@,
    }
}

/// The block of a suite: rule, title, light rule, its runs (or a note that it has none), rule.
pub open spec fn suite_block(s: CheckSuite, now: UtcTime) -> Seq<Seq<char>> {
    seq![heavy_rule(), suite_icon(s) + " "@ + s.app_name@ + suite_state(s), light_rule()]
        + s.check_runs@.map_values(|r: CheckRun| run_line(r, now)) + if s.check_runs@.len() == 0 {
        seq!["  No check runs"@]
    } else {
        Seq::empty()
    } + seq![heavy_rule()]
}

/// The lines and the line map of the first `k` suites, after `header`.
pub open spec fn suites_layout(ss: Seq<CheckSuite>, now: UtcTime, header: Seq<Seq<char>>, k: int) -> (
    Seq<Seq<char>>,
    Seq<(int, int, int)>,
)
    decreases k,
{
    if k <= 0 {
        (header, Seq::empty())
    } else {
        let p = suites_layout(ss, now, header, k - 1);
        let b = suite_block(ss[k - 1], now);
        (p.0 + b, p.1.push((p.0.len() as int, (p.0.len() + b.len()) as int, k - 1)))
    }
}

/// What the workflow sidebar shows at time `now`, and its line map.
pub open spec fn rendered_suites(ss: Seq<CheckSuite>, chain: Option<PrChain>, now: UtcTime) -> (
    Seq<Seq<char>>,
    Seq<(int, int, int)>,
) {
    if ss.len() == 0 {
        (
            chain_header_lines(chain) + seq![
                heavy_rule(),
                "No workflow runs found."@,
                "CI/CD runs will appear here."@,
                heavy_rule(),
            ],
            Seq::empty(),
        )
    } else {
        suites_layout(ss, now, chain_header_lines(chain), ss.len() as int)
    }
}

/// The line map as integers.
pub open spec fn suite_entries(map: Seq<(usize, usize, usize)>) -> Seq<(int, int, int)> {
    map.map_values(|e: (usize, usize, usize)| (e.0 as int, e.1 as int, e.2 as int))
}

/// The suite shown at a line: that of the first entry whose lines hold it.
pub open spec fn suite_at_line(map: Seq<(int, int, int)>, line: int) -> Option<int>
    decreases map.len(),
{
    if map.len() == 0 {
        None
    } else if map[0].0 <= line < map[0].1 {
        Some(map[0].2)
    } else {
        suite_at_line(map.drop_first(), line)
    }
}

/// The lines of a suite: those of the first entry of the suite.
pub open spec fn suite_range(map: Seq<(int, int, int)>, idx: int) -> Option<(int, int)>
    decreases map.len(),
{
    if map.len() == 0 {
        None
    } else if map[0].2 == idx {
        Some((map[0].0, map[0].1))
    } else {
        suite_range(map.drop_first(), idx)
    }
}

fn push_run_line(lines: &mut Vec<String>, run: &CheckRun, now: UtcTime)
    ensures
        views(final(lines)@) == views(old(lines)@).push(run_line(*run, now)),
{
    let icon: &str = match run.conclusion {
        Some(CheckConclusion::Success) => "✅",
        Some(CheckConclusion::Failure) => "❌",
        Some(CheckConclusion::Skipped) => "⏭️",
        Some(CheckConclusion::Cancelled) => "🚫",
        Some(CheckConclusion::TimedOut) => "⏰",
        Some(CheckConclusion::ActionRequired) => "⚠️",
        Some(CheckConclusion::Neutral) => "⚪",
        Some(CheckConclusion::Unknown) => "❓",
        None => match run.status {
            CheckStatus::InProgress => "🔄",
            CheckStatus::Queued => "⏳",
            CheckStatus::Waiting => "⏳",
            CheckStatus::Pending => "⏳",
            CheckStatus::Requested => "📋",
            CheckStatus::Completed => "✓",
            CheckStatus::Unknown => "❓",
        },
    };
    let mut time = String::new();
    match run.completed_at {
        Some(t) => {
            time.append("completed ");
            let age = age_text_at(now, t, false);
            time.append(age.as_str());
        },
        None => match run.started_at {
            Some(t) => {
                time.append("started ");
                let age = age_text_at(now, t, false);
                time.append(age.as_str());
            },
            None => time.append("pending"),
        },
    }
    proof {
        reveal_strlit("");
    }
    assert(time@ =~= run_time(*run, now));
    let mut line = String::from_str("  ");
    line.append(icon);
    line.append(" ");
    line.append(run.name.as_str());
    line.append(" (");
    line.append(time.as_str());
    line.append(")");
    assert(line@ =~= run_line(*run, now));
    let ghost before = lines@;
    lines.push(line);
    proof {
        lemma_views_push(before, line);
    }
}

/// The lines of a suite's block.
pub fn render_suite(suite: &CheckSuite, now: UtcTime) -> (lines: Vec<String>)
    ensures
        views(lines@) == suite_block(*suite, now),
{
    let mut lines: Vec<String> = Vec::new();
    let icon: &str = if suite.is_failure() {
        "❌"
    } else if suite.is_success() {
        "✅"
    } else if suite.is_in_progress() {
        "🔄"
    } else {
        "⚠️"
    };
    let mut title = String::from_str(icon);
    title.append(" ");
    title.append(suite.app_name.as_str());
    title.append(" (");
    match suite.conclusion {
        Some(c) => title.append(c.to_display()),
        None => title.append(suite.status.to_display()),
    }
    title.append(")");
    assert(title@ =~= suite_icon(*suite) + " "@ + suite.app_name@ + suite_state(*suite));
    let r1 = rule('━');
    let r2 = rule('─');
    lines.push(r1);
    lines.push(title);
    lines.push(r2);
    let ghost head = views(lines@);
    assert(head =~= seq![heavy_rule(), suite_icon(*suite) + " "@ + suite.app_name@ + suite_state(*suite), light_rule()]) by {
        assert(head[0] == lines@[0]@);
        assert(head[1] == lines@[1]@);
        assert(head[2] == lines@[2]@);
    }
    let n = suite.check_runs.len();
    let mut i: usize = 0;
    while i < n
        invariant
            n == suite.check_runs@.len(),
            i <= n,
            views(lines@) == head + suite.check_runs@.take(i as int).map_values(
                |r: CheckRun| run_line(r, now),
            ),
        decreases n - i,
    {
        push_run_line(&mut lines, &suite.check_runs[i], now);
        assert(suite.check_runs@.take(i + 1).map_values(|r: CheckRun| run_line(r, now))
            =~= suite.check_runs@.take(i as int).map_values(|r: CheckRun| run_line(r, now)).push(
            run_line(suite.check_runs@[i as int], now),
        ));
        i = i + 1;
    }
    assert(suite.check_runs@.take(n as int) =~= suite.check_runs@);
    let ghost mid = lines@;
    if n == 0 {
        let note = String::from_str("  No check runs");
        lines.push(note);
        proof {
            lemma_views_push(mid, note);
        }
    }
    let ghost before_last = lines@;
    let r3 = rule('━');
    lines.push(r3);
    proof {
        lemma_views_push(before_last, r3);
    }
    assert(views(lines@) =~= suite_block(*suite, now));
    lines
}

/// Renders GitHub Actions workflow status to lines.
/// Uses 0-based line numbers to match get_cursor() behavior.
pub struct ActionsBuffer {
    suites: Vec<CheckSuite>,
    line_map: Vec<(usize, usize, usize)>,
    pr_chain: Option<PrChain>,
}

/// What an actions buffer holds.
pub struct ActionsBufferView {
    pub suites: Seq<CheckSuite>,
    pub line_map: Seq<(int, int, int)>,
    pub chain: Option<PrChain>,
}

impl View for ActionsBuffer {
    type V = ActionsBufferView;

    closed spec fn view(&self) -> ActionsBufferView {
        ActionsBufferView {
            suites: self.suites@,
            line_map: suite_entries(self.line_map@),
            chain: self.pr_chain,
        }
    }
}

impl ActionsBuffer {
    /// A buffer for the suites, not rendered yet and without a chain.
    pub fn new(suites: Vec<CheckSuite>) -> (b: Self)
        ensures
            b@.suites == suites@,
            b@.line_map == Seq::<(int, int, int)>::empty(),
            b@.chain.is_none(),
    {
        let b = ActionsBuffer { suites, line_map: Vec::new(), pr_chain: None };
        assert(suite_entries(b.line_map@) =~= Seq::<(int, int, int)>::empty());
        b
    }

    /// The chain shown above the suites.
    pub fn set_chain(&mut self, chain: Option<PrChain>)
        ensures
            final(self)@.chain == chain,
            final(self)@.suites == old(self)@.suites,
            final(self)@.line_map == old(self)@.line_map,
    {
        self.pr_chain = chain;
    }

    /// The suites shown.
    pub fn suites(&self) -> (s: &[CheckSuite])
        ensures
            s@ == self@.suites,
    {
        self.suites.as_slice()
    }

    /// Whether there are no suites.
    pub fn is_empty(&self) -> (b: bool)
        ensures
            b == (self@.suites.len() == 0),
    {
        self.suites.len() == 0
    }

    /// The suite shown at a (0-based) line of the last rendering.
    pub fn line_to_suite_index(&self, line: usize) -> (r: Option<usize>)
        ensures
            match r {
                Some(i) => suite_at_line(self@.line_map, line as int) == Some(i as int),
                None => suite_at_line(self@.line_map, line as int).is_none(),
            },
    {
        let n = self.line_map.len();
        let mut k: usize = 0;
        assert(self@.line_map.skip(0) =~= self@.line_map);
        while k < n
            invariant
                n == self.line_map@.len(),
                k <= n,
                suite_at_line(self@.line_map, line as int) == suite_at_line(
                    self@.line_map.skip(k as int),
                    line as int,
                ),
            decreases n - k,
        {
            let (start, end, idx) = self.line_map[k];
            assert(self@.line_map.skip(k as int).drop_first() =~= self@.line_map.skip(k + 1));
            assert(self@.line_map.skip(k as int)[0] == self@.line_map[k as int]);
            if line >= start && line < end {
                return Some(idx);
            }
            k = k + 1;
        }
        assert(self@.line_map.skip(n as int) =~= Seq::<(int, int, int)>::empty());
        None
    }

    /// Returns the (start_line, end_line) for a suite at the given index
    pub fn suite_line_range(&self, index: usize) -> (r: Option<(usize, usize)>)
        ensures
            match r {
                Some((s, e)) => suite_range(self@.line_map, index as int) == Some((s as int, e as int)),
                None => suite_range(self@.line_map, index as int).is_none(),
            },
    {
        let n = self.line_map.len();
        let mut k: usize = 0;
        assert(self@.line_map.skip(0) =~= self@.line_map);
        while k < n
            invariant
                n == self.line_map@.len(),
                k <= n,
                suite_range(self@.line_map, index as int) == suite_range(
                    self@.line_map.skip(k as int),
                    index as int,
                ),
            decreases n - k,
        {
            let (start, end, idx) = self.line_map[k];
            assert(self@.line_map.skip(k as int).drop_first() =~= self@.line_map.skip(k + 1));
            assert(self@.line_map.skip(k as int)[0] == self@.line_map[k as int]);
            if idx == index {
                return Some((start, end));
            }
            k = k + 1;
        }
        assert(self@.line_map.skip(n as int) =~= Seq::<(int, int, int)>::empty());
        None
    }

    /// The first line (0-based) of suite `index` in the last rendering.
    pub fn line_for_suite(&self, index: usize) -> (r: Option<usize>)
        ensures
            match r {
                Some(l) => suite_range(self@.line_map, index as int) matches Some(range) && range.0
                    == l,
                None => suite_range(self@.line_map, index as int).is_none(),
            },
    {
        match self.suite_line_range(index) {
            Some((start, _end)) => Some(start),
            None => None,
        }
    }

    /// Renders the suites as seen at time `now` and records the line map.
    pub fn render(&mut self, now: UtcTime) -> (lines: Vec<String>)
        ensures
            views(lines@) == rendered_suites(old(self)@.suites, old(self)@.chain, now).0,
            final(self)@.line_map == rendered_suites(old(self)@.suites, old(self)@.chain, now).1,
            final(self)@.suites == old(self)@.suites,
            final(self)@.chain == old(self)@.chain,
    {
        let header = render_chain_header(&self.pr_chain);
        let ghost hdr = views(header@);
        if self.suites.len() == 0 {
            let mut result = header;
            let r1 = rule('━');
            let t1 = String::from_str("No workflow runs found.");
            let t2 = String::from_str("CI/CD runs will appear here.");
            let r2 = rule('━');
            let ghost h0 = result@;
            result.push(r1);
            let ghost h1 = result@;
            result.push(t1);
            let ghost h2 = result@;
            result.push(t2);
            let ghost h3 = result@;
            result.push(r2);
            proof {
                lemma_views_push(h0, r1);
                lemma_views_push(h1, t1);
                lemma_views_push(h2, t2);
                lemma_views_push(h3, r2);
            }
            self.line_map = Vec::new();
            assert(views(result@) =~= rendered_suites(old(self)@.suites, old(self)@.chain, now).0);
            assert(suite_entries(self.line_map@) =~= Seq::<(int, int, int)>::empty());
            return result;
        }
        let ghost ss = self@.suites;
        let mut all_lines = header;
        let mut map: Vec<(usize, usize, usize)> = Vec::new();
        let n = self.suites.len();
        let mut index: usize = 0;
        assert(suite_entries(map@) =~= Seq::<(int, int, int)>::empty());
        while index < n
            invariant
                n == ss.len(),
                index <= n,
                self@.suites == ss,
                self@.suites == old(self)@.suites,
                self@.chain == old(self)@.chain,
                views(all_lines@) == suites_layout(ss, now, hdr, index as int).0,
                suite_entries(map@) == suites_layout(ss, now, hdr, index as int).1,
            decreases n - index,
        {
            let mut block = render_suite(&self.suites[index], now);
            let start = all_lines.len();
            let ghost before = all_lines@;
            let ghost block_view = block@;
            all_lines.append(&mut block);
            let end = all_lines.len();
            let ghost map_before = map@;
            map.push((start, end, index));
            proof {
                lemma_views_add(before, block_view);
                assert(suite_entries(map@) =~= suite_entries(map_before).push(
                    (start as int, end as int, index as int),
                ));
            }
            index = index + 1;
        }
        self.line_map = map;
        all_lines
    }

}


/// Entries one per suite, in order, each holding at least one line, none past `len`.
pub open spec fn suite_map_ordered(map: Seq<(int, int, int)>, len: int) -> bool {
    &&& forall|a: int| 0 <= a < map.len() ==> (#[trigger] map[a]).2 == a
    &&& forall|a: int| 0 <= a < map.len() ==> (#[trigger] map[a]).0 < map[a].1 && map[a].1 <= len
    &&& forall|a: int, b: int| 0 <= a < b < map.len() ==> #[trigger] map[a].1 <= #[trigger] map[b].0
}

proof fn lemma_suites_layout(ss: Seq<CheckSuite>, now: UtcTime, header: Seq<Seq<char>>, k: int)
    requires
        0 <= k <= ss.len(),
    ensures
        suite_map_ordered(suites_layout(ss, now, header, k).1, suites_layout(ss, now, header, k).0.len() as int),
        suites_layout(ss, now, header, k).1.len() == k,
        suites_layout(ss, now, header, k).0.len() >= header.len(),
    decreases k,
{
    if k > 0 {
        lemma_suites_layout(ss, now, header, k - 1);
        let p = suites_layout(ss, now, header, k - 1);
        let q = suites_layout(ss, now, header, k);
        assert(suite_block(ss[k - 1], now).len() >= 4);
        assert forall|a: int| 0 <= a < q.1.len() implies (#[trigger] q.1[a]).2 == a by {
            if a < p.1.len() {
                assert(q.1[a] == p.1[a]);
            }
        }
        assert forall|a: int| 0 <= a < q.1.len() implies (#[trigger] q.1[a]).0 < q.1[a].1 && q.1[a].1
            <= q.0.len() by {
            if a < p.1.len() {
                assert(q.1[a] == p.1[a]);
            }
        }
        assert forall|a: int, b: int| 0 <= a < b < q.1.len() implies #[trigger] q.1[a].1
            <= #[trigger] q.1[b].0 by {
            assert(q.1[a] == p.1[a]);
            if b < p.1.len() {
                assert(q.1[b] == p.1[b]);
            }
        }
    }
}

proof fn lemma_suite_at_line(map: Seq<(int, int, int)>, len: int, j: int, line: int)
    requires
        forall|a: int, b: int| 0 <= a < b < map.len() ==> #[trigger] map[a].1 <= #[trigger] map[b].0,
        forall|a: int| 0 <= a < map.len() ==> (#[trigger] map[a]).0 < map[a].1,
        0 <= j < map.len(),
        map[j].0 <= line < map[j].1,
    ensures
        suite_at_line(map, line) == Some(map[j].2),
    decreases map.len(),
{
    if j > 0 {
        let t = map.drop_first();
        assert(map[0].1 <= map[j].0);
        assert forall|a: int, b: int| 0 <= a < b < t.len() implies #[trigger] t[a].1 <= #[trigger] t[b].0 by {
            assert(t[a] == map[a + 1] && t[b] == map[b + 1]);
        }
        assert forall|a: int| 0 <= a < t.len() implies (#[trigger] t[a]).0 < t[a].1 by {
            assert(t[a] == map[a + 1]);
        }
        lemma_suite_at_line(t, len, j - 1, line);
    }
}

proof fn lemma_suite_range(map: Seq<(int, int, int)>, j: int)
    requires
        0 <= j < map.len(),
        forall|a: int| 0 <= a < map.len() ==> (#[trigger] map[a]).2 == a,
    ensures
        suite_range(map, j) == Some((map[j].0, map[j].1)),
    decreases map.len(),
{
    if j > 0 {
        let t = map.drop_first();
        assert(map[0].2 == 0);
        assert forall|a: int| 0 <= a < t.len() implies (#[trigger] t[a]).2 == a + 1 by {
            assert(t[a] == map[a + 1]);
        }
        lemma_suite_range_shifted(t, j - 1, 1);
    }
}

proof fn lemma_suite_range_shifted(map: Seq<(int, int, int)>, j: int, shift: int)
    requires
        0 <= j < map.len(),
        shift > 0,
        forall|a: int| 0 <= a < map.len() ==> (#[trigger] map[a]).2 == a + shift,
    ensures
        suite_range(map, j + shift) == Some((map[j].0, map[j].1)),
    decreases map.len(),
{
    if j > 0 {
        let t = map.drop_first();
        assert(map[0].2 == shift);
        assert forall|a: int| 0 <= a < t.len() implies (#[trigger] t[a]).2 == a + (shift + 1) by {
            assert(t[a] == map[a + 1]);
        }
        lemma_suite_range_shifted(t, j - 1, shift + 1);
    }
}

/// Moving the cursor to the first line of a suite and reading back the suite at the
/// cursor gives that suite; its lines end where the next suite's begin.
pub proof fn lemma_suite_start_line_round_trip(
    ss: Seq<CheckSuite>,
    chain: Option<PrChain>,
    now: UtcTime,
    i: int,
)
    requires
        0 <= i < ss.len(),
    ensures
        ({
            let map = rendered_suites(ss, chain, now).1;
            &&& suite_range(map, i) is Some
            &&& suite_at_line(map, suite_range(map, i).unwrap().0) == Some(i)
            &&& suite_range(map, i).unwrap().0 < suite_range(map, i).unwrap().1
        }),
{
    let hdr = chain_header_lines(chain);
    lemma_suites_layout(ss, now, hdr, ss.len() as int);
    let p = suites_layout(ss, now, hdr, ss.len() as int);
    lemma_suite_range(p.1, i);
    lemma_suite_at_line(p.1, p.0.len() as int, i, p.1[i].0);
}

/// The suite found at a line is one that an entry of the line map names.
pub proof fn lemma_suite_at_line_names_entry(map: Seq<(int, int, int)>, line: int)
    ensures
        suite_at_line(map, line) matches Some(i) ==> exists|a: int|
            0 <= a < map.len() && #[trigger] map[a].2 == i,
    decreases map.len(),
{
    if map.len() > 0 {
        if map[0].0 <= line < map[0].1 {
            assert(map[0].2 == map[0].2);
        } else {
            let t = map.drop_first();
            lemma_suite_at_line_names_entry(t, line);
            if let Some(i) = suite_at_line(t, line) {
                let a = choose|a: int| 0 <= a < t.len() && #[trigger] t[a].2 == i;
                assert(map[a + 1].2 == i);
            }
        }
    }
}

/// The line map of a rendering of the suites names only suites that exist.
pub proof fn lemma_suite_map_in_bounds(ss: Seq<CheckSuite>, chain: Option<PrChain>, now: UtcTime)
    ensures
        forall|a: int|
            0 <= a < rendered_suites(ss, chain, now).1.len() ==> 0 <= (
            #[trigger] rendered_suites(ss, chain, now).1[a]).2 < ss.len(),
{
    if ss.len() > 0 {
        lemma_suites_layout(ss, now, chain_header_lines(chain), ss.len() as int);
    }
}

/// The number of lines of a suite's block: four rules and title lines, and one line per
/// run, or one line saying that there are none.
pub open spec fn suite_height(s: CheckSuite) -> int {
    4 + if s.check_runs@.len() == 0 {
        1
    } else {
        s.check_runs@.len() as int
    }
}

/// The number of lines of the blocks of the first `k` suites.
pub open spec fn suites_height(ss: Seq<CheckSuite>, k: int) -> int
    decreases k,
{
    if k <= 0 {
        0
    } else {
        suites_height(ss, k - 1) + suite_height(ss[k - 1])
    }
}

proof fn lemma_suite_block_len(s: CheckSuite, now: UtcTime)
    ensures
        suite_block(s, now).len() == suite_height(s),
{
}

proof fn lemma_suites_geometry(ss: Seq<CheckSuite>, now: UtcTime, header: Seq<Seq<char>>, k: int)
    requires
        0 <= k <= ss.len(),
    ensures
        suites_layout(ss, now, header, k).0.len() == header.len() + suites_height(ss, k),
        suites_layout(ss, now, header, k).1.len() == k,
        forall|a: int|
            0 <= a < k ==> #[trigger] suites_layout(ss, now, header, k).1[a] == (
                header.len() + suites_height(ss, a),
                header.len() + suites_height(ss, a + 1),
                a,
            ),
    decreases k,
{
    if k > 0 {
        lemma_suites_geometry(ss, now, header, k - 1);
        lemma_suite_block_len(ss[k - 1], now);
        let p = suites_layout(ss, now, header, k - 1);
        let q = suites_layout(ss, now, header, k);
        assert forall|a: int| 0 <= a < k implies #[trigger] q.1[a] == (
            header.len() + suites_height(ss, a),
            header.len() + suites_height(ss, a + 1),
            a,
        ) by {
            if a < k - 1 {
                assert(q.1[a] == p.1[a]);
            }
        }
    }
}

proof fn lemma_suite_range_none(map: Seq<(int, int, int)>, i: int)
    requires
        forall|a: int| 0 <= a < map.len() ==> (#[trigger] map[a]).2 != i,
    ensures
        suite_range(map, i).is_none(),
    decreases map.len(),
{
    if map.len() > 0 {
        let t = map.drop_first();
        assert forall|a: int| 0 <= a < t.len() implies (#[trigger] t[a]).2 != i by {
            assert(t[a] == map[a + 1]);
        }
        lemma_suite_range_none(t, i);
    }
}

proof fn lemma_suite_at_line_none(map: Seq<(int, int, int)>, line: int)
    requires
        forall|a: int| 0 <= a < map.len() ==> !((#[trigger] map[a]).0 <= line < map[a].1),
    ensures
        suite_at_line(map, line).is_none(),
    decreases map.len(),
{
    if map.len() > 0 {
        let t = map.drop_first();
        assert forall|a: int| 0 <= a < t.len() implies !((#[trigger] t[a]).0 <= line < t[a].1) by {
            assert(t[a] == map[a + 1]);
        }
        lemma_suite_at_line_none(t, line);
    }
}

/// The lines of the suites in a rendering: after the chain header each suite takes
/// `suite_height` lines, the next one starting where it ends and the last one ending
/// the rendering. Suite `i` has the range from the header's length plus the heights of
/// the suites before it to that plus its own height; an index of no suite has none. A
/// line in the range of suite `i` gives `i`, a line of the header or past the last suite
/// gives none.
pub proof fn lemma_suite_line_ranges(ss: Seq<CheckSuite>, chain: Option<PrChain>, now: UtcTime, line: int)
    ensures
        ({
            let r = rendered_suites(ss, chain, now);
            let h = chain_header_lines(chain).len() as int;
            &&& ss.len() > 0 ==> r.0.len() == h + suites_height(ss, ss.len() as int)
            &&& forall|i: int|
                0 <= i < ss.len() ==> #[trigger] suite_range(r.1, i) == Some(
                    (h + suites_height(ss, i), h + suites_height(ss, i + 1)),
                )
            &&& forall|i: int| (i < 0 || i >= ss.len()) ==> (#[trigger] suite_range(r.1, i)).is_none()
            &&& forall|i: int|
                0 <= i < ss.len() ==> #[trigger] suites_height(ss, i + 1) == suites_height(ss, i)
                    + suite_height(ss[i])
            &&& forall|i: int|
                0 <= i < ss.len() && h + suites_height(ss, i) <= line < h + suites_height(ss, i + 1)
                    ==> #[trigger] suite_at_line(r.1, line) == Some(i)
            &&& (line < h || line >= h + suites_height(ss, ss.len() as int)) ==> suite_at_line(
                r.1,
                line,
            ).is_none()
        }),
{
    let r = rendered_suites(ss, chain, now);
    let hdr = chain_header_lines(chain);
    let h = hdr.len() as int;
    let n = ss.len() as int;
    if n > 0 {
        lemma_suites_geometry(ss, now, hdr, n);
        lemma_suites_layout(ss, now, hdr, n);
        assert forall|i: int| 0 <= i < n implies #[trigger] suite_range(r.1, i) == Some(
            (h + suites_height(ss, i), h + suites_height(ss, i + 1)),
        ) by {
            lemma_suite_range(r.1, i);
            assert(r.1[i] == (h + suites_height(ss, i), h + suites_height(ss, i + 1), i));
        }
        assert forall|i: int|
            0 <= i < n && h + suites_height(ss, i) <= line < h + suites_height(ss, i + 1)
            implies #[trigger] suite_at_line(r.1, line) == Some(i) by {
            assert(r.1[i] == (h + suites_height(ss, i), h + suites_height(ss, i + 1), i));
            lemma_suite_at_line(r.1, r.0.len() as int, i, line);
        }
        if line < h || line >= h + suites_height(ss, n) {
            assert forall|a: int| 0 <= a < r.1.len() implies !((#[trigger] r.1[a]).0 <= line
                < r.1[a].1) by {
                assert(r.1[a] == (h + suites_height(ss, a), h + suites_height(ss, a + 1), a));
                lemma_suites_height_monotone(ss, 0, a);
                lemma_suites_height_monotone(ss, a + 1, n);
            }
        }
    }
    assert forall|i: int| (i < 0 || i >= n) implies (#[trigger] suite_range(r.1, i)).is_none() by {
        if n > 0 {
            assert forall|a: int| 0 <= a < r.1.len() implies (#[trigger] r.1[a]).2 != i by {
                assert(r.1[a].2 == a);
            }
        }
        lemma_suite_range_none(r.1, i);
    }
    if line < h || line >= h + suites_height(ss, n) {
        lemma_suite_at_line_none(r.1, line);
    }
}

proof fn lemma_suites_height_monotone(ss: Seq<CheckSuite>, i: int, j: int)
    requires
        0 <= i <= j <= ss.len(),
    ensures
        0 <= suites_height(ss, i) <= suites_height(ss, j),
    decreases j,
{
    if j > 0 {
        if i < j {
            lemma_suites_height_monotone(ss, i, j - 1);
        } else {
            lemma_suites_height_monotone(ss, 0, j - 1);
        }
    }
}

/// A check run shows the failure mark exactly when it concluded in failure, and a suite
/// exactly when it failed (its own conclusion, or one of its runs).
pub proof fn lemma_failure_marks(r: CheckRun, s: CheckSuite)
    ensures
        (run_icon(r) == "❌"@) <==> r.conclusion == Some(CheckConclusion::Failure),
        (suite_icon(s) == "❌"@) <==> s.spec_is_failure(),
{
    reveal_strlit("❌");
    reveal_strlit("✅");
    reveal_strlit("⏭️");
    reveal_strlit("🚫");
    reveal_strlit("⏰");
    reveal_strlit("⚠️");
    reveal_strlit("⚪");
    reveal_strlit("❓");
    reveal_strlit("🔄");
    reveal_strlit("⏳");
    reveal_strlit("📋");
    reveal_strlit("✓");
    assert("❌"@[0] != "✅"@[0]);
    assert("❌"@[0] != "⏭️"@[0]);
    assert("❌"@[0] != "🚫"@[0]);
    assert("❌"@[0] != "⏰"@[0]);
    assert("❌"@[0] != "⚠️"@[0]);
    assert("❌"@[0] != "⚪"@[0]);
    assert("❌"@[0] != "❓"@[0]);
    assert("❌"@[0] != "🔄"@[0]);
    assert("❌"@[0] != "⏳"@[0]);
    assert("❌"@[0] != "📋"@[0]);
    assert("❌"@[0] != "✓"@[0]);
}

} // verus!
