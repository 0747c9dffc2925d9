//! Embedded, provider-neutral agent runtime for application-owned integrations.

pub mod admission;
pub mod admission_laws;
pub mod agent;
pub mod batch_laws;
pub mod batch_run;
pub mod binding;
pub mod broker;
pub mod canonical;
pub mod catalog;
pub mod catalog_laws;
pub mod commit;
pub mod console;
pub mod direct;
pub mod direct_laws;
pub mod discovery;
pub mod early_laws;
pub mod error;
pub mod event;
pub mod fingerprint;
pub mod guard;
pub mod json;
pub mod ledger;
pub mod lexicon;
pub mod lifecycle;
pub mod limits;
pub mod manifest;
pub mod message;
pub mod mock;
pub mod model;
pub mod ordering;
pub mod plan;
pub mod plan_laws;
pub mod plan_model;
pub mod plan_preflight;
pub mod plan_rules;
pub mod plan_run;
pub mod plan_state;
pub mod planned;
pub mod planned_laws;
pub mod planned_model;
pub mod pointer;
pub mod policy;
pub mod prepared;
pub mod program_batch;
pub mod program_laws;
pub mod program_run;
pub mod program_schema;
pub mod programmatic;
pub mod ranking;
pub mod ranking_laws;
pub mod reactive;
pub mod reactive_laws;
pub mod registry;
pub mod report;
pub mod request;
pub mod request_laws;
pub mod routing;
pub mod runner;
pub mod schedule;
pub mod schema;
pub mod schema_guard;
pub mod schema_walk;
pub mod scope_laws;
pub mod scope_selection;
pub mod settlement;
pub mod simple_laws;
pub mod simple_run;
pub mod speculation;
pub mod speculation_laws;
pub mod speculative_call;
pub mod strategy_core;
pub mod stream_laws;
pub mod stream_turn;
pub mod streaming;
pub mod text;
pub mod tool;
pub mod tool_registry;
pub mod turn_laws;
pub mod visibility;
