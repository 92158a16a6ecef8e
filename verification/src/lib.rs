//! Verified core of an agent kernel.

pub mod admission_laws;
pub mod batch_evidence;
pub mod change_laws;
pub mod completion_laws;
pub mod contract_laws;
pub mod dag;
pub mod digest;
pub mod drop_execution;
pub mod drop_laws;
pub mod execution_backend;
pub mod execution_laws;
pub mod extension_admission;
pub mod external;
pub mod external_laws;
pub mod format_laws;
pub mod hosted;
pub mod hosted_laws;
pub mod image_attachment;
pub mod image_laws;
pub mod impact_laws;
pub mod integration;
pub mod integration_lanes;
pub mod integration_plan;
pub mod intent;
pub mod intent_admission;
pub mod intent_contract;
pub mod intent_drop;
pub mod intent_event_contract;
pub mod intent_impact;
pub mod intent_layer;
pub mod intent_layer_contract;
pub mod intent_lineage;
pub mod intent_operation;
pub mod intent_patch;
pub mod intent_revision;
pub mod intent_stack;
pub mod intent_state;
pub mod json;
pub mod json_exact;
pub mod layer_facts;
pub mod layer_laws;
pub mod layer_materialization;
pub mod layer_replay;
pub mod lineage_append;
pub mod lineage_facts;
pub mod lineage_laws;
pub mod lineage_replay;
pub mod log_laws;
pub mod managed_execution;
pub mod operation_laws;
pub mod operation_recovery;
pub mod operation_replay;
pub mod order;
pub mod records;
pub mod replay_laws;
pub mod revision_laws;
pub mod search;
pub mod source_laws;
pub mod stack_laws;
pub mod step_laws;
pub mod stream;
pub mod text;
pub mod value;
