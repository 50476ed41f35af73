//! Core of the Constellation agent-to-agent SDK: agent configuration, message
//! and task types, @-mention parsing and formatting, name sanitising, the
//! local task registry, and the decisions an agent takes on what it
//! receives, each with its contract proved by Verus.

pub mod agent;
pub mod config;
pub mod error;
pub mod ids;
pub mod message;
pub mod task;
pub mod text;
pub mod utils;

pub use config::{AgentConfig, AgentConfigBuilder};
pub use error::{ConstellationError, Result};
pub use message::{
    ConstellationMetadata, MentionEvent, Message, MessageEvent, Priority, Task, TaskEvent, TaskResult, TaskStatus,
};
pub use task::TaskManager;
pub use utils::{format_room_alias, generate_device_id, parse_homeserver_url, sanitize_username};
