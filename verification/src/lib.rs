//! A verified model of the state-management and node-reference core of a
//! transaction engine: staged substate stores that form a tree of pending
//! writes, heap and tracked node references, the traversal of the state
//! tree below a node, the access rules that secure an object, and schema
//! validation.

pub mod bytes;
pub mod staging;
pub mod types;
pub mod model;
pub mod assoc;
pub mod errors;
pub mod values;
pub mod track;
pub mod node_ref;
pub mod auth_module;
pub mod schema;
pub mod traverse;
pub mod securify;
pub mod executor;
pub mod replay;
