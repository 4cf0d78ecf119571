//! Distribution prioritization and selection core for a Python package
//! installer, together with the small pure kernels of the surrounding
//! subsystems: virtual-environment layout and libc probing.

pub mod bucket_laws;
pub mod compatibility;
pub mod libc;
pub mod prioritized_distribution;
pub mod scan;
pub mod target;
pub mod uninstall;
pub mod virtual_env;

pub use compatibility::Environment;
pub use compatibility::IncompatibleSource;
pub use compatibility::IncompatibleTag;
pub use compatibility::IncompatibleWheel;
pub use compatibility::SourceCandidate;
pub use compatibility::SourceDistCompatibility;
pub use compatibility::TagCompatibility;
pub use compatibility::TagPriority;
pub use compatibility::VersionSpecifiers;
pub use compatibility::WheelCandidate;
pub use compatibility::WheelCompatibility;
pub use compatibility::Yanked;
pub use compatibility::classify_source;
pub use compatibility::classify_wheel;
pub use libc::Libc;
pub use libc::LibcDetectionError;
pub use libc::LibcVersion;
pub use libc::TargetEnvironment;
pub use prioritized_distribution::CompatibleDist;
pub use prioritized_distribution::Dist;
pub use prioritized_distribution::Hashes;
pub use prioritized_distribution::IncompatibleDist;
pub use prioritized_distribution::PrioritizedDist;
pub use target::Target;
pub use virtual_env::Interpreter;
pub use virtual_env::PyVenvConfiguration;
pub use virtual_env::Virtualenv;
