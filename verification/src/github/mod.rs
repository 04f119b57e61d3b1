pub mod auth;
pub mod chain;
pub mod comments;
pub mod graphql;
pub mod pending;
pub mod pr;
pub mod workflow;

pub use auth::AuthError;
pub use chain::{ChainDetection, ChainError, ChainQuery};
pub use comments::CommentsError;
pub use graphql::GraphQLError;
pub use pending::PendingCommentsError;
pub use pr::{PrError, PullRequest};
pub use workflow::{CheckConclusion, CheckRun, CheckStatus, CheckSuite};
