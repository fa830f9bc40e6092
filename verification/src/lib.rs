//! Cognitive routing, reasoning and memory logic for the crablet agent.
pub mod agents;
pub mod audit;
pub mod breaker;
pub mod cache;
pub mod capability;
pub mod classifier;
pub mod context;
pub mod decay;
pub mod emotion;
pub mod emotional;
pub mod feedback;
pub mod fusion;
pub mod graph;
pub mod guard;
pub mod intent_graph;
pub mod intents;
pub mod knowledge;
pub mod learner;
pub mod logic;
pub mod mcts;
pub mod meta_router;
pub mod ollama;
pub mod middleware;
pub mod mock;
pub mod multimodal;
pub mod optimizer;
pub mod pattern;
pub mod patterns;
pub mod planner;
pub mod provider;
pub mod query;
pub mod react;
pub mod reflector;
pub mod retry;
pub mod routing;
pub mod sse;
pub mod team;
pub mod text;
pub mod tracking;
pub mod types;
pub mod validator;
pub mod validation;
