//! Command logic of a chat bot: extraction of fenced code blocks from messages,
//! toolchain selection for remote execution, reply formatting, and routing of
//! search responses into ordered posts.

pub mod codeblock;
pub mod format;
pub mod language;
pub mod search;
pub mod topics;

pub use codeblock::{extract_code_block, CodeBlock};
pub use format::{to_code_block, truncate, CODE_BLOCK_BUDGET};
pub use language::{plan_exec, resolve_language, ExecutionRequest};
pub use search::{
    execution_post, none_if_empty, result_post, route_search, Post, ResponseType, SearchResponse,
    SearchResult,
};
pub use topics::{get_topics, TopicLeaf, TopicNode};
