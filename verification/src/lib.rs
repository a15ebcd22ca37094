pub mod text;
pub mod models;
pub mod markdown;
pub mod structure_seed;
pub mod structure_quality;
pub mod stage2_quality;
pub mod structure_transform;
pub mod model_a;
pub mod json;
pub mod grounded_assembly;
pub mod follow_up;
pub mod follow_up_answer;
pub mod prompts;
pub mod query_match;
pub mod query_suggestions;
pub mod json_repair;
pub mod analysis_preview;
pub mod learning_session;
pub mod ai_settings;
pub mod documents;
pub mod analyze_flow;
pub mod analyze_steps;
pub mod analysis_record;
pub mod dictionary;
pub mod entry_form;
pub mod query_flow;
pub mod search_steps;
pub mod phrase_attachments;
pub mod follow_up_flow;
pub mod snapshot;
pub mod prewarm;
pub mod learning_rules;
pub mod grounded_flow;
pub mod facts;
pub mod lexeme_extract;
pub mod ai_settings_view;
pub mod library;
pub mod stream_events;
pub mod lexeme_bundles;
pub mod json_view;
