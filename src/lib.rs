//! A registry of aeronautic parts and of the organizations that make and
//! service them: who made a part, who owns it, its condition, and the
//! documents attached to it, each change gated by role and ownership rules.
pub mod types;
pub mod registry;
pub mod store;
pub mod queries;
pub mod laws;

pub use types::{AeronauticPart, Document, DocumentMap, Error, OrgType, Organization, PartStatus, Principal};
pub use registry::{PartsRegistry, RegistryView};
pub use queries::PartFilter;
