//! Verified core of the fluent web component compiler and runtime.

pub mod text;
pub mod change;
pub mod ids;
pub mod error;
pub mod template;
pub mod css;
pub mod html;
pub mod markers;
pub mod reactive_text;
pub mod subcomponent;
pub mod ifs;
pub mod runtime;
pub mod events;
pub mod element_ids;
pub mod selector_scope;
pub mod component;
pub mod id_component;
pub mod sections;
