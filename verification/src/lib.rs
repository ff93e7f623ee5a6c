//! Conversion of PCB fabrication file sets into the manufacturer's naming and
//! content conventions.
//!
//! The files of a board are classified by their names under the rules of an
//! EDA dialect (`patterns`), their Gerber content is rewritten (`gerber`),
//! and each leaves under the canonical name of its layer (`converter`). The
//! colourful silkscreen is put together and sealed in `colorful`.
//!
//! Nothing here touches a file: callers hand over names and content and write
//! what comes back. What other crates compute for the library is named, and
//! the library is verified against those names.

pub mod ambient;
pub mod colorful;
pub mod config;
pub mod converter;
pub mod digest;
pub mod error;
pub mod gerber;
pub mod patterns;
pub mod progress;
pub mod regexp;
pub mod text;

pub use config::Config;
pub use config::EdaType;
pub use converter::ConversionStats;
pub use converter::Converter;
pub use error::TransJlcError;
