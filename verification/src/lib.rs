//! Type inference and evaluation for the Metel language.

// Values compared and copied by what they mean, and collections of them.
pub mod data;
pub mod table;
pub mod assoc;
pub mod sharing;
pub mod text;
pub mod strings;

// Types, and how they are written.
pub mod types;
pub mod term;
pub mod infer_type;
pub mod free_vars;
pub mod spelling;
pub mod render;
pub mod type_expr;

// Substitutions and unification.
pub mod subst_model;
pub mod acyclic;
pub mod substitution;
pub mod unify_model;
pub mod unify;
pub mod constraints;
pub mod coercion;
pub mod defaulting;
pub mod schemes;

// What a program declares.
pub mod symbols;
pub mod identity;
pub mod ast;
pub mod bounds;
pub mod definitions;
pub mod registry;
pub mod registering;
pub mod aspect_decls;
pub mod paths;
pub mod resolve;
pub mod aspects;
pub mod merge;

// The state of inference.
pub mod error;
pub mod context;
pub mod context_registry;
pub mod context_state;
pub mod context_solve;

// Values at run time, and where they are kept.
pub mod values;
pub mod inspect;
pub mod literals;
pub mod operators;
pub mod store;
pub mod copying;
pub mod environment;
pub mod reach;
pub mod pattern;
pub mod display;

// What a program can call, and what runs it.
pub mod typed_ast;
pub mod native_keys;
pub mod natives;
pub mod builtins;
pub mod runtime_types;
pub mod runtime;
pub mod host;
pub mod profiler;
pub mod machine;

// Evaluation.
pub mod semantics;
pub mod evaluator;
pub mod placing;
pub mod control;
pub mod calling;
pub mod generic_calls;
pub mod program;
pub mod pipeline;

// Measuring programs, and checking them against what is expected.
pub mod bench;
pub mod bench_report;
pub mod citations;
pub mod fixture;

// What holds of all this together.
pub mod inference_laws;
pub mod unifier_laws;
pub mod fitting_laws;
pub mod rendering_laws;
pub mod writing_laws;
pub mod context_laws;
pub mod projection_laws;
pub mod registry_laws;
pub mod resolving_laws;
pub mod declaration_laws;
pub mod aspect_laws;
pub mod impl_laws;
pub mod solving_laws;
pub mod message_laws;
pub mod storage_laws;
pub mod copying_laws;
pub mod operator_laws;
pub mod text_laws;
pub mod builtin_laws;
pub mod display_laws;
pub mod literal_laws;
pub mod pattern_laws;
pub mod native_laws;
pub mod dispatch_laws;
pub mod runtime_laws;
pub mod depth;
pub mod settling;
pub mod control_laws;
pub mod calling_laws;
pub mod access_laws;
pub mod method_laws;
pub mod state_laws;
pub mod code_laws;
pub mod program_laws;
pub mod evaluation_laws;
pub mod report_laws;
pub mod bench_laws;
pub mod fixture_laws;
