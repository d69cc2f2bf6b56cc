//! A multi-ecosystem dependency-manifest engine: it detects a project's
//! stack from its marker files, reads and rewrites the stack's
//! development-dependency manifest, resolves latest versions from the
//! ecosystem's registry responses, and proposes backing services and an
//! analyzer report for the project.

use vstd::prelude::*;

pub mod badges;
pub mod cargotoml;
pub mod config;
pub mod deps;
pub mod gemfile;
pub mod gomod;
pub mod gradle;
pub mod jsonmanifest;
pub mod maven;
pub mod numfmt;
pub mod omap;
pub mod registry;
pub mod report;
pub mod requirements;
pub mod services;
pub mod services_config;
pub mod stack;
pub mod telemetry;
pub mod text;
pub mod toolstack;

pub use deps::DependencyInfo;
pub use services::DockerComposeConfig;
pub use services::DockerService;
pub use services_config::DevConfigSection;
pub use services_config::StackConfig;
pub use stack::Markers;
pub use stack::Stack;
pub use telemetry::TelemetryResult;

verus! {

} // verus!
