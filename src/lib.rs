//! An in-process publish/subscribe registry: listeners registered under
//! event keys, delivered to in registration order, with once-only keys,
//! removal by tag and payloads recovered by type identity.

pub mod env;
pub mod event_bus;
pub mod global;

pub use env::{AppInfo, Locked, RuntimeModuleEnv, Unlocked};
pub use event_bus::{RuntimeEvent, RuntimeEventBus, RuntimeEventListener, RuntimeEventListenerHandlerArg};
pub use global::RuntimeState;
