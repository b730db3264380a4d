//! Star the upstream repositories of installed packages.
//!
//! The library holds the verified core: the registry of hosting targets with
//! its lazy initialisation state machine, the registry of package sources with
//! its local/global mode decision, the de-duplication of the discovered
//! packages, and what the package managers' output says.
use vstd::prelude::*;

pub mod args;
pub mod hosting;
pub mod location;
pub mod managers;
pub mod package;
pub mod source;
pub mod target;
pub mod text;

pub use args::Args;
pub use hosting::{Github, Gitlab, Method, StarRequest};
pub use location::WebUrl;
pub use managers::{
    entry_to_name, Cargo, CargoGlobal, CargoToml, CrateValue, Dpkg, Homebrew, Pacman, Portage, Yum,
    Zypper,
};
pub use package::Package;
pub use source::{Source, SourceRegistry, SourceType};
pub use target::{IdentifierStyle, StarStep, Target, TargetRegistry, TargetState};

verus! {

} // verus!
