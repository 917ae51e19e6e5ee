//! Declarative manifests for transactional `.deb` sessions and the Debian
//! control/policy file builders.
pub mod session;
pub mod templates;
pub mod text;
