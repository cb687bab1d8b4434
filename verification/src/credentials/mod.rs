//! Alias-based, scope-isolated credential storage.
//!
//! Credentials are stored under the key `molt-hub:{scope}:{alias}`. The
//! scope controls visibility: global credentials are shared, project,
//! pipeline and stage scopes are isolated from each other.

pub mod alias_index;
pub mod fd_env;
pub mod memory_store;
pub mod scope;

pub use alias_index::CredentialAliasIndex;
pub use memory_store::MemoryStore;
pub use scope::{
    credential_scope_for_integration, storage_key, CredentialError, CredentialScope, KeyringStore,
    ProjectId,
};
