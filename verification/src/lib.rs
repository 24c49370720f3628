//! Streaming-data building blocks: a multi-reader streaming buffer with
//! automatic eviction of fully consumed chunks, generic pull-based read
//! adapters, an incremental JSON-like parser and serializer, a binary
//! low-level stream decoder, ordered key/value containers, and small
//! supporting types.

pub mod cursedbuffer;
pub mod decoders;
pub mod doss_multi_dict;
pub mod doss_stream;
pub mod doss_types;
pub mod elbow;
pub mod json_deserializer;
pub mod json_entry;
pub mod json_parser;
pub mod json_serializer;
pub mod ordered_multi_dict;
pub mod orderedbag;
pub mod readers;
pub mod reusable;
pub mod typedstream;
