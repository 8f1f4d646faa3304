pub mod convert;
pub mod manager;
pub mod message;
pub mod state;

pub use message::{
    ConversationId, ConversationMessage, FunctionCall, MessageId, MessageKind, MessageMetadata,
    MessageRole, MessageState, ToolCall, ToolInvocation, ToolResult,
};
pub use manager::ConversationManager;
pub use state::{truncate_title, Conversation};
