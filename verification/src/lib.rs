//! The surface of a Balatro seed engine that a page talks to.
//!
//! `scan_chunk` searches a range of seeds and packs what it finds into records. `inspect_seed`
//! says of a single seed which clauses of a filter it meets, and where. `analyze_seed_basic`
//! gives an overview of what the antes of a seed offer. The reports are JSON documents.
//!
//! What a seed holds is for the game engine to say. The functions here are handed the engine's
//! replies and stop with a request where one is missing: see `dialogue`.
pub mod agreement;
pub mod analyze;
pub mod dialogue;
pub mod draws;
pub mod filter;
pub mod inspect;
pub mod json;
pub mod judging;
pub mod meaning;
pub mod reading;
pub mod report;
pub mod scan;
pub mod search;
pub mod showing;
pub mod state;
pub mod steady;
pub mod text;
pub mod wishes;

pub use analyze::analyze_seed_basic;
pub use report::inspect_seed;
pub use scan::scan_chunk;
pub use scan::scan_chunk_parallel;
pub use scan::v3_diagnostic_cpu;
pub use scan::v3_diagnostic_shader_source;
