//! Rego rules compiled to SQL.

pub mod ast;
pub mod ast_text;
pub mod call_laws;
pub mod calls;
pub mod copies;
pub mod errors;
pub mod float_laws;
pub mod floats;
pub mod joining;
pub mod joining_laws;
pub mod layout_laws;
pub mod meaning_laws;
pub mod message_laws;
pub mod model;
pub mod model_laws;
pub mod optimizer_laws;
pub mod precedence_laws;
pub mod query_laws;
pub mod reference_laws;
pub mod rego_to_sql_ir;
pub mod render;
pub mod rendering_laws;
pub mod rule_text_laws;
pub mod sql_codegen;
pub mod sql_ir;
pub mod sql_optimizer;
pub mod string_map;
pub mod text;
pub mod translation;
pub mod translation_laws;
pub mod wording_laws;
