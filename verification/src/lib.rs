//! ManifestVault engine: Kubernetes manifest normalisation, OSV advisory
//! matching and Component Importance Index scoring.

pub mod cli;
pub mod text;
pub mod layer;
pub mod manifest;
pub mod decode;
pub mod version;
pub mod advisory;
pub mod cvss;
pub mod sort;
pub mod report;
pub mod score;
pub mod properties;
pub mod scan;
