//! Binding runtime that exposes a component as a custom element.
//!
//! - `tag`: validity of custom element names
//! - `value`, `naming`, `event`, `descriptor`: the immutable description of a
//!   component type and how values cross the boundary
//! - `message`, `component`: the message protocol and the consumer that owns
//!   the component's state
//! - `bridge`: the per-element lifecycle bridge and its channel
//! - `style`, `registry`: style resources and the table of registered tags
//! - `laws`: properties that hold across these operations

pub mod bridge;
pub mod component;
pub mod descriptor;
pub mod event;
pub mod laws;
pub mod message;
pub mod naming;
pub mod registry;
pub mod style;
pub mod tag;
pub mod value;
