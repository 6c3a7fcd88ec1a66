//! Components: pieces of the screen that render to lines of styled text.

pub mod framed_lines;
pub mod guttered_lines;
pub mod line;
pub mod transcript_error;
pub mod transcript_tool_invocation;
pub mod transcript;
pub mod message;
pub mod queued_inputs;
pub mod header;
pub mod footer;
pub mod composer;
pub mod approval_prompt;
pub mod resume_picker;
pub mod view;
