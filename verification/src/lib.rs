//! Protocol plugins for the Bowire workbench, run as polyglot sidecars.
//!
//! The library holds what a sidecar says on the wire and why: the data
//! models of the topology a plugin discovers and the results it returns,
//! their JSON shapes (written and read back), the JSON-RPC 2.0 envelopes, the dispatcher that maps
//! each method to its plugin call and frames every answer and stream, and
//! the decisions of the stdio read loop. Transports and the async plugin
//! trait sit on top of it.

pub mod decode;
pub mod dispatch;
pub mod json;
pub mod jsonrpc;
pub mod models;
pub mod plugin;
pub mod shapes;
pub mod stdio;

pub use dispatch::{dispatch, InvokeCall, Route};
pub use json::{Json, JsonNumber, JsonNumberView, JsonValue};
pub use jsonrpc::{ErrorObject, Notification, Request, Response};
pub use models::{FieldInfo, InvokeResult, MessageInfo, MethodInfo, MethodType, PluginSetting, ServiceInfo};
pub use plugin::{Capabilities, DEFAULT_ICON_SVG, SIDECAR_PROTOCOL_VERSION};
pub use stdio::{next_step, on_envelope, on_input, step_for, Envelope, Input, InputAction, LoopStep};
