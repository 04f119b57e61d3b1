pub mod comment;
pub mod mode;

pub use comment::{Comment, CommentThread, IssueComment, ReviewComment, User};
pub use mode::SidebarMode;
