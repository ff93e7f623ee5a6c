//! The settings of a conversion run.

use crate::text::chars_of;
use crate::text::lowercase;
use crate::text::lowercase_of;
use crate::text::same_chars;
use std::path::PathBuf;
use vstd::prelude::*;

verus! {

/// `std::path::PathBuf`, which the library carries along and never looks
/// into.
#[verifier::external_type_specification]
#[verifier::external_body]
pub struct ExPathBuf(PathBuf);

/// Cloning a `PathBuf` gives a path equal to the one cloned.
pub assume_specification[ <PathBuf as Clone>::clone ](path: &PathBuf) -> (r: PathBuf)
    ensures
        r == *path,
;

/// The settings of a conversion run.
#[derive(Debug, Clone)]
pub struct Config {
    /// The dialect of the input: `auto`, a known dialect, or a name of the
    /// caller's own.
    pub eda: String,
    /// The input: a directory, or an archive of one.
    pub path: PathBuf,
    /// The directory for the output.
    pub output_path: PathBuf,
    /// Whether the output is packed into one archive.
    pub zip: bool,
    /// The name of that archive, without extension.
    pub zip_name: String,
    /// Whether the run logs what it does.
    pub verbose: bool,
    /// Whether progress bars are left out.
    pub no_progress: bool,
}

/// A dialect selector.
#[derive(Debug, Clone, PartialEq)]
pub enum EdaType {
    /// The dialect is detected from the filenames.
    Auto,
    KiCad,
    Protel,
    Jlc,
    /// Any other selector, as written, in lower case. Whether it names a
    /// dialect is decided where the dialect is made: only `custom:` and a
    /// name does.
    Custom(String),
}

impl EdaType {
    /// The selector as it is written.
    pub open spec fn name(self) -> Seq<char> {
        match self {
            EdaType::Auto => "auto"@,
            EdaType::KiCad => "kicad"@,
            EdaType::Protel => "protel"@,
            EdaType::Jlc => "jlc"@,
            EdaType::Custom(name) => name@,
        }
    }

    /// Whether this is the selector that `lower`, a setting in lower case,
    /// stands for: one of the four known names, or else the setting itself.
    pub open spec fn stands_for(self, lower: Seq<char>) -> bool {
        if lower == "auto"@ {
            self is Auto
        } else if lower == "kicad"@ {
            self is KiCad
        } else if lower == "protel"@ {
            self is Protel
        } else if lower == "jlc"@ {
            self is Jlc
        } else {
            self is Custom && self->Custom_0@ == lower
        }
    }

    /// The selector as it is written.
    pub fn as_str(&self) -> (r: &str)
        ensures
            r@ == self.name(),
    {
        match self {
            EdaType::Auto => "auto",
            EdaType::KiCad => "kicad",
            EdaType::Protel => "protel",
            EdaType::Jlc => "jlc",
            EdaType::Custom(name) => name.as_str(),
        }
    }
}

impl Config {
    /// The dialect selector that the `eda` setting stands for, whatever its
    /// case: one of the four known names, or else the setting itself in
    /// lower case.
    pub fn get_eda_type(&self) -> (r: EdaType)
        ensures
            r.stands_for(lowercase_of(self.eda@)),
    {
        let lower = lowercase(self.eda.as_str());
        let name = chars_of(lower.as_str());
        let auto = chars_of("auto");
        let kicad = chars_of("kicad");
        let protel = chars_of("protel");
        let jlc = chars_of("jlc");
        if same_chars(name.as_slice(), auto.as_slice()) {
            EdaType::Auto
        } else if same_chars(name.as_slice(), kicad.as_slice()) {
            EdaType::KiCad
        } else if same_chars(name.as_slice(), protel.as_slice()) {
            EdaType::Protel
        } else if same_chars(name.as_slice(), jlc.as_slice()) {
            EdaType::Jlc
        } else {
            EdaType::Custom(lower)
        }
    }
}

} // verus!
