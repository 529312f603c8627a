//! What the command line programs are made of: their options and the
//! decisions they take.

pub mod aliasing;
pub mod filenames;
pub mod ignore;
pub mod names;
pub mod parameters;
pub mod string;
pub mod verbosity;
pub mod walk;

pub use aliasing::heck_aliases;
pub use filenames::SlugifyFilenames;
pub use parameters::SlugifyParameters;
pub use string::SlugifyString;
pub use verbosity::Verbosity;
