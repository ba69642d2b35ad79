//! Verified core of a fetch bridge between a sandboxed frontend and an
//! in-process HTTP router: request translation, a tagged resource table,
//! the open / send / cancel / read-stream protocol and body framing.

pub mod error;
pub mod table;
pub mod stream;
pub mod http;
pub mod request;
pub mod response;
pub mod signal;
pub mod session;

pub use error::Error;
pub use request::{CanonicalRequest, FetchConf, IpcBody, IpcEnvelope};
pub use response::{AxumResponse, FetchReturn, FetchSendResponseMeta};
pub use session::Sessions;
pub use table::{ResourceId, ResourceKind, ResourceTable};
