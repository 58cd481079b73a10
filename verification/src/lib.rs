pub mod abi;
pub mod aggregator;
pub mod algo;
pub mod cc;
pub mod checkpoint;
pub mod codec;
pub mod config;
pub mod coordinator;
pub mod errors;
pub mod graph_loader;
pub mod guest;
pub mod launch;
pub mod messaging;
pub mod observability;
pub mod partition;
pub mod results;
pub mod sdk;
pub mod service;
pub mod sort;
pub mod storage;
pub mod superstep;
pub mod table;
pub mod text;
pub mod types;
pub mod wasm;
