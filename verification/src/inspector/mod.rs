//! The inspector: editor definitions, the bindings between the fields of an
//! object and their editor widgets, and the widget that hosts them.

pub mod bindings;
pub mod context;
pub mod editors;
pub mod widget;

pub use context::ContextEntry;
pub use context::InspectorContext;
pub use context::InspectorEnvironment;
pub use widget::Inspector;
pub use widget::InspectorBuilder;
