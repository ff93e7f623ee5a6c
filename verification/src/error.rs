//! The errors that the library reports.

use crate::text::append_str;
use crate::text::string_of;
use vstd::prelude::*;

verus! {

/// What can go wrong in a conversion run.
#[derive(Debug, Clone, PartialEq, Eq)]
pub enum TransJlcError {
    /// No known dialect classifies enough layers of the file set.
    NoMatchingPattern,
    /// A dialect was named that the library does not know.
    UnsupportedEda { format: String },
    /// A Gerber file could not be read as far as needed.
    InvalidGerberFormat { reason: String },
    /// An input location holds no file.
    FileNotFound { path: String },
    /// An input archive could not be unpacked.
    ZipExtractionFailed { reason: String },
    /// The fingerprint aperture could not be made.
    HashApertureError { reason: String },
    /// The auxiliary asset that goes with every output is absent.
    MissingAsset { name: String },
    /// Reading or writing failed.
    IoFailure { operation: String, path: String, reason: String },
    /// A silkscreen artifact could not be sealed.
    EncryptionFailed { reason: String },
    /// An image for the silkscreen could not be read.
    InvalidImage { reason: String },
}

impl TransJlcError {
    /// The message for a reader, with the context that the error carries.
    pub open spec fn message_text(self) -> Seq<char> {
        match self {
            TransJlcError::NoMatchingPattern => "No matching EDA pattern found for files in directory"@,
            TransJlcError::UnsupportedEda { format } => "Unsupported EDA format: "@ + format@,
            TransJlcError::InvalidGerberFormat { reason } => "Invalid Gerber file format: "@
                + reason@,
            TransJlcError::FileNotFound { path } => "File not found in expected location: "@
                + path@,
            TransJlcError::ZipExtractionFailed { reason } => "ZIP extraction failed: "@ + reason@,
            TransJlcError::HashApertureError { reason } => "Hash aperture generation failed: "@
                + reason@,
            TransJlcError::MissingAsset { name } => "Required asset not found: "@ + name@,
            TransJlcError::IoFailure { operation, path, reason } => "Failed to "@ + operation@
                + " file: "@ + path@ + ": "@ + reason@,
            TransJlcError::EncryptionFailed { reason } => "Encryption failed: "@ + reason@,
            TransJlcError::InvalidImage { reason } => "Invalid image: "@ + reason@,
        }
    }

    /// The message for a reader, with the context that the error carries.
    pub fn message(&self) -> (r: String)
        ensures
            r@ == self.message_text(),
    {
        let mut out: Vec<char> = Vec::new();
        match self {
            TransJlcError::NoMatchingPattern => {
                append_str(&mut out, "No matching EDA pattern found for files in directory");
            },
            TransJlcError::UnsupportedEda { format } => {
                append_str(&mut out, "Unsupported EDA format: ");
                append_str(&mut out, format.as_str());
            },
            TransJlcError::InvalidGerberFormat { reason } => {
                append_str(&mut out, "Invalid Gerber file format: ");
                append_str(&mut out, reason.as_str());
            },
            TransJlcError::FileNotFound { path } => {
                append_str(&mut out, "File not found in expected location: ");
                append_str(&mut out, path.as_str());
            },
            TransJlcError::ZipExtractionFailed { reason } => {
                append_str(&mut out, "ZIP extraction failed: ");
                append_str(&mut out, reason.as_str());
            },
            TransJlcError::HashApertureError { reason } => {
                append_str(&mut out, "Hash aperture generation failed: ");
                append_str(&mut out, reason.as_str());
            },
            TransJlcError::MissingAsset { name } => {
                append_str(&mut out, "Required asset not found: ");
                append_str(&mut out, name.as_str());
            },
            TransJlcError::IoFailure { operation, path, reason } => {
                append_str(&mut out, "Failed to ");
                append_str(&mut out, operation.as_str());
                append_str(&mut out, " file: ");
                append_str(&mut out, path.as_str());
                append_str(&mut out, ": ");
                append_str(&mut out, reason.as_str());
            },
            TransJlcError::EncryptionFailed { reason } => {
                append_str(&mut out, "Encryption failed: ");
                append_str(&mut out, reason.as_str());
            },
            TransJlcError::InvalidImage { reason } => {
                append_str(&mut out, "Invalid image: ");
                append_str(&mut out, reason.as_str());
            },
        }
        string_of(out.as_slice())
    }
}

} // verus!
