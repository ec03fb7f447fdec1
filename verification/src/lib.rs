//! Application-layer logic of the file manager: semantic component lifecycle,
//! grounded retrieval planning, preview budgets and operation planning rules.

pub mod assoc;
pub mod connections;
pub mod error;
pub mod operation_planner;
pub mod operations;
pub mod platform;
pub mod plugins;
pub mod pptx_preview;
pub mod rag;
pub mod rag_context;
pub mod rag_conversations;
pub mod rag_query_planning;
pub mod search;
pub mod semantic;
pub mod semantic_component_mapping;
pub mod semantic_components;
pub mod text;
pub mod undo;
pub mod walk;
