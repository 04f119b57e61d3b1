//! GitHub Actions check suites and check runs.
use vstd::prelude::*;
use crate::clock::UtcTime;
use crate::text::str_eq;

verus! {

/// Status of a check
#[derive(Debug, Clone, Copy, PartialEq, Eq, Structural)]
pub enum CheckStatus {
    Queued,
    InProgress,
    Completed,
    Waiting,
    Requested,
    Pending,
    Unknown,
}

/// Conclusion of a completed check
#[derive(Debug, Clone, Copy, PartialEq, Eq, Structural)]
pub enum CheckConclusion {
    Success,
    Failure,
    Neutral,
    Cancelled,
    Skipped,
    TimedOut,
    ActionRequired,
    Unknown,
}

/// Individual check run within a suite.
/// Times are UTC instants: seconds since the Unix epoch and nanoseconds past that second.
pub struct CheckRun {
    pub name: String,
    pub status: CheckStatus,
    pub conclusion: Option<CheckConclusion>,
    pub started_at: Option<UtcTime>,
    pub completed_at: Option<UtcTime>,
    pub details_url: Option<String>,
}

/// Represents a check suite (GitHub Actions workflow run)
pub struct CheckSuite {
    pub app_name: String,
    pub status: CheckStatus,
    pub conclusion: Option<CheckConclusion>,
    pub check_runs: Vec<CheckRun>,
}

impl Clone for CheckRun {
    fn clone(&self) -> (r: Self)
        ensures
            r == *self,
    {
        CheckRun {
            name: self.name.clone(),
            status: self.status,
            conclusion: self.conclusion,
            started_at: self.started_at,
            completed_at: self.completed_at,
            details_url: self.details_url.clone(),
        }
    }
}

/// Two suites with the same fields and the same runs.
pub open spec fn same_suite(a: CheckSuite, b: CheckSuite) -> bool {
    &&& a.app_name == b.app_name
    &&& a.status == b.status
    &&& a.conclusion == b.conclusion
    &&& a.check_runs@ == b.check_runs@
}

/// Two sequences of suites that agree suite by suite.
pub open spec fn same_suites(a: Seq<CheckSuite>, b: Seq<CheckSuite>) -> bool {
    &&& a.len() == b.len()
    &&& forall|i: int| 0 <= i < a.len() ==> same_suite(#[trigger] a[i], b[i])
}

impl Clone for CheckSuite {
    fn clone(&self) -> (r: Self)
        ensures
            same_suite(r, *self),
    {
        let runs = self.check_runs.clone();
        assert(runs@ =~= self.check_runs@);
        CheckSuite {
            app_name: self.app_name.clone(),
            status: self.status,
            conclusion: self.conclusion,
            check_runs: runs,
        }
    }
}

/// A copy of a list of suites.
pub fn clone_suites(v: &Vec<CheckSuite>) -> (r: Vec<CheckSuite>)
    ensures
        same_suites(r@, v@),
{
    let mut r: Vec<CheckSuite> = Vec::new();
    let mut i: usize = 0;
    while i < v.len()
        invariant
            i <= v@.len(),
            r@.len() == i,
            forall|j: int| 0 <= j < i ==> same_suite(#[trigger] r@[j], v@[j]),
        decreases v@.len() - i,
    {
        r.push(v[i].clone());
        i = i + 1;
    }
    r
}

impl CheckSuite {
    /// The suite concluded successfully.
    pub open spec fn spec_is_success(&self) -> bool {
        self.conclusion == Some(CheckConclusion::Success)
    }

    /// The suite concluded with a failure, or one of its check runs did.
    pub open spec fn spec_is_failure(&self) -> bool {
        ||| self.conclusion == Some(CheckConclusion::Failure)
        ||| exists|i: int|
            0 <= i < self.check_runs@.len() && #[trigger] self.check_runs@[i].conclusion == Some(
                CheckConclusion::Failure,
            )
    }

    /// The suite is queued or running.
    pub open spec fn spec_is_in_progress(&self) -> bool {
        self.status == CheckStatus::InProgress || self.status == CheckStatus::Queued
    }

    /// Returns true if all checks in this suite have passed
    pub fn is_success(&self) -> (b: bool)
        ensures
            b == self.spec_is_success(),
    {
        match self.conclusion {
            Some(CheckConclusion::Success) => true,
            _ => false,
        }
    }

    /// Returns true if any check in this suite has failed
    pub fn is_failure(&self) -> (b: bool)
        ensures
            b == self.spec_is_failure(),
    {
        if let Some(CheckConclusion::Failure) = self.conclusion {
            return true;
        }
        let mut i: usize = 0;
        while i < self.check_runs.len()
            invariant
                i <= self.check_runs@.len(),
                self.conclusion != Some(CheckConclusion::Failure),
                forall|k: int| 0 <= k < i ==> self.check_runs@[k].conclusion != Some(
                    CheckConclusion::Failure,
                ),
            decreases self.check_runs@.len() - i,
        {
            if let Some(CheckConclusion::Failure) = self.check_runs[i].conclusion {
                return true;
            }
            i = i + 1;
        }
        false
    }

    /// Returns true if the suite is still running
    pub fn is_in_progress(&self) -> (b: bool)
        ensures
            b == self.spec_is_in_progress(),
    {
        self.status == CheckStatus::InProgress || self.status == CheckStatus::Queued
    }
}

/// The status that an API status name stands for.
pub open spec fn status_from_name(s: Seq<char>) -> CheckStatus {
    if s == "QUEUED"@ {
        CheckStatus::Queued
    } else if s == "IN_PROGRESS"@ {
        CheckStatus::InProgress
    } else if s == "COMPLETED"@ {
        CheckStatus::Completed
    } else if s == "WAITING"@ {
        CheckStatus::Waiting
    } else if s == "REQUESTED"@ {
        CheckStatus::Requested
    } else if s == "PENDING"@ {
        CheckStatus::Pending
    } else {
        CheckStatus::Unknown
    }
}

/// The text shown for a status.
pub open spec fn status_label(s: CheckStatus) -> Seq<char> {
    match s {
        CheckStatus::Queued => "⏳ Queued"@,
        CheckStatus::InProgress => "🔄 Running"@,
        CheckStatus::Completed => "✓ Done"@,
        CheckStatus::Waiting => "⏳ Waiting"@,
        CheckStatus::Requested => "📋 Requested"@,
        CheckStatus::Pending => "⏳ Pending"@,
        CheckStatus::Unknown => "? Unknown"@,
    }
}

/// The conclusion that an API conclusion name stands for.
pub open spec fn conclusion_from_name(s: Seq<char>) -> CheckConclusion {
    if s == "SUCCESS"@ {
        CheckConclusion::Success
    } else if s == "FAILURE"@ {
        CheckConclusion::Failure
    } else if s == "NEUTRAL"@ {
        CheckConclusion::Neutral
    } else if s == "CANCELLED"@ {
        CheckConclusion::Cancelled
    } else if s == "SKIPPED"@ {
        CheckConclusion::Skipped
    } else if s == "TIMED_OUT"@ {
        CheckConclusion::TimedOut
    } else if s == "ACTION_REQUIRED"@ {
        CheckConclusion::ActionRequired
    } else {
        CheckConclusion::Unknown
    }
}

/// The text shown for a conclusion.
pub open spec fn conclusion_label(c: CheckConclusion) -> Seq<char> {
    match c {
        CheckConclusion::Success => "✅ Success"@,
        CheckConclusion::Failure => "❌ Failure"@,
        CheckConclusion::Neutral => "⚪ Neutral"@,
        CheckConclusion::Cancelled => "🚫 Cancelled"@,
        CheckConclusion::Skipped => "⏭️ Skipped"@,
        CheckConclusion::TimedOut => "⏰ Timed Out"@,
        CheckConclusion::ActionRequired => "⚠️ Action Required"@,
        CheckConclusion::Unknown => "? Unknown"@,
    }
}

impl CheckStatus {
    pub fn from_str(s: &str) -> (r: Self)
        ensures
            r == status_from_name(s@),
    {
        if str_eq(s, "QUEUED") {
            CheckStatus::Queued
        } else if str_eq(s, "IN_PROGRESS") {
            CheckStatus::InProgress
        } else if str_eq(s, "COMPLETED") {
            CheckStatus::Completed
        } else if str_eq(s, "WAITING") {
            CheckStatus::Waiting
        } else if str_eq(s, "REQUESTED") {
            CheckStatus::Requested
        } else if str_eq(s, "PENDING") {
            CheckStatus::Pending
        } else {
            CheckStatus::Unknown
        }
    }

    pub fn to_display(&self) -> (s: &'static str)
        ensures
            s@ == status_label(*self),
    {
        match self {
            CheckStatus::Queued => "⏳ Queued",
            CheckStatus::InProgress => "🔄 Running",
            CheckStatus::Completed => "✓ Done",
            CheckStatus::Waiting => "⏳ Waiting",
            CheckStatus::Requested => "📋 Requested",
            CheckStatus::Pending => "⏳ Pending",
            CheckStatus::Unknown => "? Unknown",
        }
    }
}

impl CheckConclusion {
    pub fn from_str(s: &str) -> (r: Self)
        ensures
            r == conclusion_from_name(s@),
    {
        if str_eq(s, "SUCCESS") {
            CheckConclusion::Success
        } else if str_eq(s, "FAILURE") {
            CheckConclusion::Failure
        } else if str_eq(s, "NEUTRAL") {
            CheckConclusion::Neutral
        } else if str_eq(s, "CANCELLED") {
            CheckConclusion::Cancelled
        } else if str_eq(s, "SKIPPED") {
            CheckConclusion::Skipped
        } else if str_eq(s, "TIMED_OUT") {
            CheckConclusion::TimedOut
        } else if str_eq(s, "ACTION_REQUIRED") {
            CheckConclusion::ActionRequired
        } else {
            CheckConclusion::Unknown
        }
    }

    pub fn to_display(&self) -> (s: &'static str)
        ensures
            s@ == conclusion_label(*self),
    {
        match self {
            CheckConclusion::Success => "✅ Success",
            CheckConclusion::Failure => "❌ Failure",
            CheckConclusion::Neutral => "⚪ Neutral",
            CheckConclusion::Cancelled => "🚫 Cancelled",
            CheckConclusion::Skipped => "⏭️ Skipped",
            CheckConclusion::TimedOut => "⏰ Timed Out",
            CheckConclusion::ActionRequired => "⚠️ Action Required",
            CheckConclusion::Unknown => "? Unknown",
        }
    }
}

/// GitHub's conclusion names read as the conclusion of the same name, and each named
/// conclusion comes from its own name only: "FAILURE" alone is a failure, "CANCELLED"
/// alone is cancelled, and so on; any other text is unknown.
pub proof fn lemma_conclusion_names(s: Seq<char>)
    ensures
        (conclusion_from_name(s) == CheckConclusion::Success) == (s == "SUCCESS"@),
        (conclusion_from_name(s) == CheckConclusion::Failure) == (s == "FAILURE"@),
        (conclusion_from_name(s) == CheckConclusion::Neutral) == (s == "NEUTRAL"@),
        (conclusion_from_name(s) == CheckConclusion::Cancelled) == (s == "CANCELLED"@),
        (conclusion_from_name(s) == CheckConclusion::Skipped) == (s == "SKIPPED"@),
        (conclusion_from_name(s) == CheckConclusion::TimedOut) == (s == "TIMED_OUT"@),
        (conclusion_from_name(s) == CheckConclusion::ActionRequired) == (s == "ACTION_REQUIRED"@),
        (conclusion_from_name(s) == CheckConclusion::Unknown) == !(s == "SUCCESS"@ || s
            == "FAILURE"@ || s == "NEUTRAL"@ || s == "CANCELLED"@ || s == "SKIPPED"@ || s
            == "TIMED_OUT"@ || s == "ACTION_REQUIRED"@),
{
    reveal_strlit("SUCCESS");
    assert("SUCCESS"@[0] == 'S' && "SUCCESS"@[1] == 'U');
    reveal_strlit("FAILURE");
    assert("FAILURE"@[0] == 'F' && "FAILURE"@[1] == 'A');
    reveal_strlit("NEUTRAL");
    assert("NEUTRAL"@[0] == 'N' && "NEUTRAL"@[1] == 'E');
    reveal_strlit("CANCELLED");
    assert("CANCELLED"@[0] == 'C' && "CANCELLED"@[1] == 'A');
    reveal_strlit("SKIPPED");
    assert("SKIPPED"@[0] == 'S' && "SKIPPED"@[1] == 'K');
    reveal_strlit("TIMED_OUT");
    assert("TIMED_OUT"@[0] == 'T' && "TIMED_OUT"@[1] == 'I');
    reveal_strlit("ACTION_REQUIRED");
    assert("ACTION_REQUIRED"@[0] == 'A' && "ACTION_REQUIRED"@[1] == 'C');
}

/// GitHub's status names read as the status of the same name, and each named status
/// comes from its own name only; any other text is unknown.
pub proof fn lemma_status_names(s: Seq<char>)
    ensures
        (status_from_name(s) == CheckStatus::Queued) == (s == "QUEUED"@),
        (status_from_name(s) == CheckStatus::InProgress) == (s == "IN_PROGRESS"@),
        (status_from_name(s) == CheckStatus::Completed) == (s == "COMPLETED"@),
        (status_from_name(s) == CheckStatus::Waiting) == (s == "WAITING"@),
        (status_from_name(s) == CheckStatus::Requested) == (s == "REQUESTED"@),
        (status_from_name(s) == CheckStatus::Pending) == (s == "PENDING"@),
        (status_from_name(s) == CheckStatus::Unknown) == !(s == "QUEUED"@ || s == "IN_PROGRESS"@
            || s == "COMPLETED"@ || s == "WAITING"@ || s == "REQUESTED"@ || s == "PENDING"@),
{
    reveal_strlit("QUEUED");
    assert("QUEUED"@[0] == 'Q' && "QUEUED"@[1] == 'U');
    reveal_strlit("IN_PROGRESS");
    assert("IN_PROGRESS"@[0] == 'I' && "IN_PROGRESS"@[1] == 'N');
    reveal_strlit("COMPLETED");
    assert("COMPLETED"@[0] == 'C' && "COMPLETED"@[1] == 'O');
    reveal_strlit("WAITING");
    assert("WAITING"@[0] == 'W' && "WAITING"@[1] == 'A');
    reveal_strlit("REQUESTED");
    assert("REQUESTED"@[0] == 'R' && "REQUESTED"@[1] == 'E');
    reveal_strlit("PENDING");
    assert("PENDING"@[0] == 'P' && "PENDING"@[1] == 'E');
}

} // verus!
