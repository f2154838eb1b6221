//! Resolves `template`/`with` composition: turns each service's own body,
//! plus whatever templates its `with` list pulls in, into one fully
//! merged service.

pub mod access;
pub mod engine;
pub mod field_laws;
pub mod import_laws;
pub mod interpolate;
pub mod label_laws;
pub mod laws;
pub mod merge;
pub mod merge_laws;
pub mod order_laws;
pub mod qualify;
pub mod reading_laws;
pub mod resolver;
pub mod service_laws;
pub mod slots;
pub mod stage_laws;
pub mod substitute;
pub mod substitution_laws;
pub mod walk_laws;

pub use crate::compose_error::{ComposeError, ComposeErrorV, MapKeyCollision, MapKeyCollisionV};
pub use engine::{
    compose,
    compose_with_resolver,
    ComposedProgram,
    ComposedProgramV,
    MAX_TEMPLATE_DEPTH,
};
pub use resolver::{ImportableDecl, SymbolResolver, SymbolTable};
