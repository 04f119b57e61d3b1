//! Detection of a chain of stacked pull requests, one query at a time.
use vstd::prelude::*;
use super::graphql::{self, GraphQLError, RelatedPrs};
use super::pr::{PrChain, PrInfo, PullRequest};
use crate::text::str_eq;

verus! {

broadcast use vstd::string::group_string_axioms;

/// Why a chain of pull requests could not be detected.
#[derive(Debug)]
pub enum ChainError {
    AuthError(String),
    GraphQLError(String),
    NoToken,
}

/// The message shown for a `ChainError`.
pub open spec fn chain_error_text(e: ChainError) -> Seq<char> {
    match e {
        ChainError::AuthError(msg) => "Auth error: "@ + msg@,
        ChainError::GraphQLError(msg) => "GraphQL error: "@ + msg@,
        ChainError::NoToken => "No GitHub token available"@,
    }
}

impl ChainError {
    /// The message of the error, as its `Display` writes it.
    pub fn message(&self) -> (s: String)
        ensures
            s@ == chain_error_text(*self),
    {
        let mut s = String::new();
        match self {
            ChainError::AuthError(msg) => {
                s.append("Auth error: ");
                s.append(msg.as_str());
            },
            ChainError::GraphQLError(msg) => {
                s.append("GraphQL error: ");
                s.append(msg.as_str());
            },
            ChainError::NoToken => s.append("No GitHub token available"),
        }
        s
    }

    /// A failed query, as a chain error carrying its message.
    pub fn from_graphql(err: GraphQLError) -> (e: ChainError)
        ensures
            match err {
                GraphQLError::RequestFailed(msg) => e == ChainError::GraphQLError(msg),
            },
    {
        match err {
            GraphQLError::RequestFailed(msg) => ChainError::GraphQLError(msg),
        }
    }
}

/// A chain entry for a pull request of a related-pull-requests reply.
pub open spec fn info_of(p: graphql::PrInfo) -> PrInfo {
    PrInfo { number: p.number, title: p.title, head_ref: p.head_ref_name, base_ref: p.base_ref_name }
}

fn convert_pr_info(gql_info: graphql::PrInfo) -> (info: PrInfo)
    ensures
        info == info_of(gql_info),
{
    PrInfo {
        number: gql_info.number,
        title: gql_info.title,
        head_ref: gql_info.head_ref_name,
        base_ref: gql_info.base_ref_name,
    }
}

/// The branches that end a chain going down: `main`, `master`, `develop`, `development`.
pub open spec fn is_default_branch_spec(branch: Seq<char>) -> bool {
    branch == "main"@ || branch == "master"@ || branch == "develop"@ || branch == "development"@
}

/// Whether a branch is one of the default branches, where a chain ends: `main`, `master`, `develop` or `development`.
pub fn is_default_branch(branch: &str) -> (b: bool)
    ensures
        b == is_default_branch_spec(branch@),
{
    str_eq(branch, "main") || str_eq(branch, "master") || str_eq(branch, "develop") || str_eq(
        branch,
        "development",
    )
}

/// The next query of a chain detection.
pub enum ChainQuery {
    /// Find the open pull request whose head branch is `base_ref`.
    Parent { base_ref: String },
    /// Find the open pull requests whose base branch is `head_ref`.
    Children { head_ref: String },
}

/// A chain detection in progress: the pull request it started from, the ancestors found
/// so far (nearest first) and the base branch to look up next.
pub struct ChainDetection {
    pub pr: PullRequest,
    pub ancestors: Vec<PrInfo>,
    pub current_base: String,
}

/// The query that follows once the walk down the bases has reached `base`.
pub open spec fn query_after(d: ChainDetection) -> ChainQuery {
    if is_default_branch_spec(d.current_base@) {
        ChainQuery::Children { head_ref: d.pr.head_ref }
    } else {
        ChainQuery::Parent { base_ref: d.current_base }
    }
}

/// The ancestors, root first, then the pull request itself, then the children found.
pub open spec fn chain_order(
    ancestors: Seq<PrInfo>,
    pr: PullRequest,
    children: Seq<graphql::PrInfo>,
) -> Seq<PrInfo> {
    ancestors.reverse() + seq![PrInfo::of_pr(pr)] + children.map_values(|c| info_of(c))
}

impl ChainDetection {
    fn next_query(&self) -> (q: ChainQuery)
        ensures
            q == query_after(*self),
    {
        if is_default_branch(self.current_base.as_str()) {
            ChainQuery::Children { head_ref: self.pr.head_ref.clone() }
        } else {
            ChainQuery::Parent { base_ref: self.current_base.clone() }
        }
    }

    /// Starts at a pull request: its base is the first branch to look up.
    pub fn start(pr: PullRequest) -> (r: (ChainDetection, ChainQuery))
        ensures
            r.0.pr == pr,
            r.0.ancestors@.len() == 0,
            r.0.current_base == pr.base_ref,
            r.1 == query_after(r.0),
            walk_linked(r.0),
    {
        let base = pr.base_ref.clone();
        let d = ChainDetection { pr, ancestors: Vec::new(), current_base: base };
        let q = d.next_query();
        (d, q)
    }

    /// Takes the reply to a parent query: a parent found becomes the next ancestor and its
    /// base the next branch to look up; without a parent the walk down ends.
    pub fn on_parent(&mut self, related: RelatedPrs) -> (q: ChainQuery)
        ensures
            final(self).pr == old(self).pr,
            match related.parent {
                Some(p) => {
                    &&& final(self).ancestors@ == old(self).ancestors@.push(info_of(p))
                    &&& final(self).current_base == p.base_ref_name
                    &&& q == query_after(*final(self))
                },
                None => {
                    &&& final(self).ancestors@ == old(self).ancestors@
                    &&& final(self).current_base == old(self).current_base
                    &&& q == ChainQuery::Children { head_ref: old(self).pr.head_ref }
                },
            },
    {
        match related.parent {
            Some(parent) => {
                self.current_base = parent.base_ref_name.clone();
                self.ancestors.push(convert_pr_info(parent));
                self.next_query()
            },
            None => ChainQuery::Children { head_ref: self.pr.head_ref.clone() },
        }
    }

    /// Takes the reply to the children query and builds the chain, with the pull request
    /// itself as the viewed one.
    pub fn finish(self, related: RelatedPrs) -> (chain: PrChain)
        ensures
            chain.chain@ == chain_order(self.ancestors@, self.pr, related.children@),
            chain.current_index == self.ancestors@.len(),
    {
        let mut chain: Vec<PrInfo> = Vec::new();
        let ancestors = self.ancestors;
        let n = ancestors.len();
        let mut i: usize = n;
        while i > 0
            invariant
                i <= n == ancestors@.len(),
                chain@ == ancestors@.reverse().take(n - i),
            decreases i,
        {
            i = i - 1;
            chain.push(ancestors[i].clone());
            assert(chain@ =~= ancestors@.reverse().take(n - i));
        }
        assert(ancestors@.reverse().take(n as int) =~= ancestors@.reverse());
        chain.push(PrInfo::from_pr(self.pr));
        let ghost base = chain@;
        let mut rest = related.children;
        let ghost all = rest@;
        let m = rest.len();
        let mut j: usize = 0;
        while j < m
            invariant
                m == all.len(),
                j <= m,
                rest@ == all.skip(j as int),
                chain@ == base + all.take(j as int).map_values(|c| info_of(c)),
            decreases m - j,
        {
            let c = rest.remove(0);
            assert(c == all[j as int]) by {
                assert(all.skip(j as int)[0] == all[j as int]);
            }
            chain.push(convert_pr_info(c));
            assert(chain@ =~= base + all.take(j + 1).map_values(|c| info_of(c)));
            assert(rest@ =~= all.skip(j + 1));
            j = j + 1;
        }
        assert(all.take(m as int) =~= all);
        PrChain { chain, current_index: n }
    }
}

/// The walk down the bases so far is linked: the nearest ancestor's head branch is the
/// pull request's base branch, each further ancestor's head branch is the base branch of
/// the one found before it, and the branch to look up next is the base branch of the last
/// one found (the pull request's own while none is).
pub open spec fn walk_linked(d: ChainDetection) -> bool {
    let n = d.ancestors@.len();
    &&& forall|k: int|
        0 <= k < n ==> (#[trigger] d.ancestors@[k]).head_ref == if k == 0 {
            d.pr.base_ref
        } else {
            d.ancestors@[k - 1].base_ref
        }
    &&& d.current_base == if n == 0 {
        d.pr.base_ref
    } else {
        d.ancestors@[n - 1].base_ref
    }
}

/// A detection starts linked, and a step on a parent whose head branch is the branch that
/// was looked up (what the parent query asks for) keeps it linked.
pub proof fn lemma_walk_stays_linked(
    before: ChainDetection,
    related: RelatedPrs,
    after: ChainDetection,
)
    requires
        walk_linked(before),
        after.pr == before.pr,
        match related.parent {
            Some(p) => {
                &&& p.head_ref_name == before.current_base
                &&& after.ancestors@ == before.ancestors@.push(info_of(p))
                &&& after.current_base == p.base_ref_name
            },
            None => {
                &&& after.ancestors@ == before.ancestors@
                &&& after.current_base == before.current_base
            },
        },
    ensures
        walk_linked(after),
{
    if let Some(p) = related.parent {
        let n = before.ancestors@.len() as int;
        assert forall|k: int| 0 <= k < n + 1 implies (#[trigger] after.ancestors@[k]).head_ref
            == if k == 0 {
            after.pr.base_ref
        } else {
            after.ancestors@[k - 1].base_ref
        } by {
            if k < n {
                assert(after.ancestors@[k] == before.ancestors@[k]);
                if k > 0 {
                    assert(after.ancestors@[k - 1] == before.ancestors@[k - 1]);
                }
            } else if k > 0 {
                assert(after.ancestors@[k - 1] == before.ancestors@[k - 1]);
            }
        }
    }
}

/// In a chain built from a linked walk, each pull request's head branch is the base
/// branch of the pull request after it, from the root down to the viewed one; and where
/// every child found has the viewed pull request's head as its base, so does every entry
/// after the viewed one.
pub proof fn lemma_chain_links(d: ChainDetection, children: Seq<graphql::PrInfo>)
    requires
        walk_linked(d),
    ensures
        ({
            let c = chain_order(d.ancestors@, d.pr, children);
            let n = d.ancestors@.len() as int;
            &&& forall|j: int| 0 <= j < n ==> (#[trigger] c[j]).head_ref == c[j + 1].base_ref
            &&& (forall|k: int| 0 <= k < children.len() ==> (#[trigger] children[k]).base_ref_name
                == d.pr.head_ref) ==> forall|j: int|
                n < j < c.len() ==> (#[trigger] c[j]).base_ref == c[n].head_ref
        }),
{
    let c = chain_order(d.ancestors@, d.pr, children);
    let a = d.ancestors@;
    let n = a.len() as int;
    assert forall|j: int| 0 <= j < n implies (#[trigger] c[j]).head_ref == c[j + 1].base_ref by {
        assert(c[j] == a[n - 1 - j]);
        if j + 1 < n {
            assert(c[j + 1] == a[n - 2 - j]);
        } else {
            assert(c[j + 1] == PrInfo::of_pr(d.pr));
        }
    }
    if forall|k: int| 0 <= k < children.len() ==> (#[trigger] children[k]).base_ref_name
        == d.pr.head_ref {
        assert forall|j: int| n < j < c.len() implies (#[trigger] c[j]).base_ref == c[n].head_ref by {
            assert(c[n] == PrInfo::of_pr(d.pr));
            assert(c[j] == info_of(children[j - n - 1]));
        }
    }
}

/// The viewed pull request of a detected chain is the one the detection started from, and
/// it stands right after its ancestors.
pub proof fn lemma_chain_views_start(
    ancestors: Seq<PrInfo>,
    pr: PullRequest,
    children: Seq<graphql::PrInfo>,
)
    ensures
        chain_order(ancestors, pr, children)[ancestors.len() as int] == PrInfo::of_pr(pr),
        chain_order(ancestors, pr, children).len() == ancestors.len() + 1 + children.len(),
{
}

} // verus!
