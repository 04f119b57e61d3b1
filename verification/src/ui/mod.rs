pub mod actions_buffer;
pub mod buffer;
pub mod markup;
pub mod navigation;
pub mod relative_time;
pub mod render;

pub use actions_buffer::ActionsBuffer;
pub use buffer::CommentBuffer;
pub use navigation::Navigator;
