//! A reflective property inspector.
//!
//! Given a structured value whose shape is only known at run time, the
//! inspector builds one editor widget per field, keeps those widgets in step
//! with the value, and reports edits back as change records that name the
//! whole path of the edited field.
//!
//! - [`reflect`]: values, their fields and their run-time types.
//! - [`inspector::editors`]: the editor definitions, leaf and composite, and
//!   the registry that finds the definition of a type.
//! - [`inspector::context`]: the bindings between fields and widgets: built
//!   from an object, brought up to date against an object.
//! - [`inspector::widget`]: the inspector widget that hosts the bindings.
//! - [`ui`] and [`message`]: the pool of widgets and the queue of messages
//!   that the inspector works in.
//! - [`inspector::bindings`] and [`laws`]: what the contracts mean, and what
//!   holds of the functions taken together: one binding per field, one
//!   report per change, no field in the way of another, and a second pass
//!   that repeats the first.
//!
//! The functions of this crate are verified against contracts stated over
//! the mathematical views of the data (`@`). One contract is taken on trust:
//! that of sharing the registry between contexts, which is the standard
//! library's `Rc::clone`.

pub mod error;
pub mod inspector;
pub mod laws;
pub mod message;
pub mod reflect;
pub mod ui;
