//! An RPC gateway stage: it resolves method names against a static
//! capability registry and runs the session methods against an in-memory
//! session store.

pub mod clock;
pub mod decision;
pub mod dispatch;
pub mod listing;
pub mod methods;
pub mod policy;
pub mod protocol;
pub mod registry;
pub mod session_key;
pub mod sessions;
pub mod text;

pub use crate::decision::ActionRequest;
pub use crate::decision::Decision;
pub use crate::decision::DecisionAction;
pub use crate::dispatch::PatchCall;
pub use crate::dispatch::RpcCall;
pub use crate::dispatch::RpcDispatchOutcome;
pub use crate::dispatch::RpcDispatcher;
pub use crate::dispatch::RpcPayload;
pub use crate::dispatch::RpcRoute;
pub use crate::dispatch::SessionStatusParams;
pub use crate::dispatch::SessionsListParams;
pub use crate::dispatch::SessionsPatchParams;
pub use crate::methods::MethodRegistry;
pub use crate::methods::MethodSpec;
pub use crate::methods::ResolvedMethod;
pub use crate::policy::GroupActivationMode;
pub use crate::policy::SendPolicyOverride;
pub use crate::policy::SessionQueueMode;
pub use crate::protocol::MethodFamily;
pub use crate::registry::SessionRegistry;
pub use crate::session_key::ParsedSessionKey;
pub use crate::session_key::SessionKind;
pub use crate::sessions::SessionEntry;
pub use crate::sessions::SessionPatch;
pub use crate::sessions::SessionSummary;
pub use crate::sessions::SessionView;
