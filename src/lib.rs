//! Client-side core of a tamper-evident database driver: typed wire values,
//! query results, session metadata and the transaction state machine.

pub mod column;
pub mod connect;
pub mod document;
pub mod error;
pub mod json;
pub mod params;
pub mod result;
pub mod session;
pub mod tx;
pub mod wire;

pub use connect::{ConnectOptions, ConnectOptionsBuilder};
pub use document::{
    CreateCollection, CreateCollectionBuilder, CreateCollectionRequest, Field, FieldBuilder,
    FieldComparison, FieldType, Index, ModelField, OrderByClause, ProtobufFieldParts, Query,
    QueryExpression, SearchDocuments, SearchDocumentsRequest,
};
pub use error::{DecodeError, Error, Expected};
pub use json::{JsonNumber, JsonValue};
pub use params::{NamedParam, Params, ToParams};
pub use result::{Column, QueryChunk, QueryResult, Row};
pub use session::Session;
pub use tx::{TxAction, TxEvent, TxMode, TxState};
pub use wire::{FromWire, Instant, SqlArg, Uuid, WireKind, WireValue};
