//! Preparation of fine-tuning datasets from chunked source text.
//!
//! The crate turns an annotated table of question/answer/evidence rows into
//! prompt/completion pairs, and builds generation requests from every group
//! of `k` text chunks. Every function carries a contract, and Verus proves it.
//! The calls into the `csv`, `itertools` and `serde_json` crates are the
//! exception: what they do is stated in `table`, `index_source` and `jsonl`,
//! and taken on trust.

pub mod config;
pub mod dataset;
pub mod errors;
pub mod format;
pub mod generate;
pub mod groups;
pub mod index_source;
pub mod jsonl;
pub mod subsets;
pub mod table;
