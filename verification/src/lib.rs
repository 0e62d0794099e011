//! Bindings generator core for smart-contract interface descriptions.
//!
//! The crate holds the validated type grammar of interface descriptors, the
//! registry of nested tuple shapes, the template-driven mapping of interface
//! types to target-language strings, and the fixed lifecycle through which a
//! target-language generator is driven.
pub mod binder;
pub mod builder;
pub mod error;
pub mod executor;
pub mod generate;
pub mod grammar;
pub mod grammar_laws;
pub mod json;
pub mod mapping;
pub mod recorder;
pub mod rust;
pub mod text;
pub mod tuples;

pub use binder::{JsonRuntimeBinder, JsonRuntimeType, RuntimeType};
pub use builder::{Binding, BindingBuilder, Document, Format, Source};
pub use error::{AbiError, AbiJsonError, BindError, ProtocolError, TypeMappingError};
pub use executor::Executor;
pub use generate::{Contract, ContractDescriptor, File, Generator};
pub use mapping::{SerdeTypeMapping, TypeMapping};
pub use recorder::{record, Record, Recorder};
