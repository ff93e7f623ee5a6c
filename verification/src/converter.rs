//! The conversion of a file set: which files are taken, what becomes of
//! each, and under which name it leaves.
//!
//! Nothing here reads or writes a file. The caller hands over names and
//! content, writes what comes back, and reports where it wrote it.

use crate::config::Config;
use crate::config::EdaType;
use crate::error::TransJlcError;
use crate::gerber::all_patterns_compile;
use crate::gerber::default_settings;
use crate::gerber::has_missing_prefix;
use crate::gerber::is_format_error;
use crate::gerber::is_hash_error;
use crate::gerber::select_pattern;
use crate::gerber::transformed;
use crate::gerber::GerberProcessor;
use crate::patterns::detected;
use crate::patterns::jlc_table;
use crate::patterns::kicad_table;
use crate::patterns::match_name;
use crate::patterns::protel_table;
use crate::patterns::EdaPatterns;
use crate::patterns::LayerType;
use crate::patterns::PatternMatcher;
use crate::patterns::PatternTable;
use crate::progress::ProgressTracker;
use crate::regexp::regex_compiles;
use crate::text::chars_of;
use crate::text::has_prefix;
use crate::text::lowercase_of;
use crate::text::slice_chars;
use crate::text::starts_with;
use crate::text::string_of;
use std::path::PathBuf;
use vstd::prelude::*;

verus! {

/// A file of the input set: its name, without directory, and its content.
#[derive(Debug, Clone)]
pub struct InputFile {
    pub name: String,
    pub content: String,
}

/// A file of the output set: the layer it holds, its canonical name and its
/// content.
#[derive(Debug, Clone)]
pub struct OutputFile {
    pub layer: LayerType,
    pub name: String,
    pub content: String,
}

/// What a run has produced.
#[derive(Debug)]
pub struct ConversionStats {
    pub total_files_processed: usize,
    pub layer_types_found: Vec<LayerType>,
    pub output_format: String,
}

/// The conversion of one file set.
pub struct Converter {
    pub config: Config,
    pub progress_tracker: ProgressTracker,
    pub gerber_processor: GerberProcessor,
    /// Each layer written so far, with the path of its file.
    pub processed_files: Vec<(LayerType, PathBuf)>,
}

/// The name of the read-me that goes with every output.
pub open spec fn required_asset_name() -> Seq<char> {
    "PCB下单必读.txt"@
}

/// What goes before the name in the selector of a custom dialect.
pub open spec fn custom_lead() -> Seq<char> {
    "custom:"@
}

/// The name of the dialect that a selector of the form `custom:<name>` asks
/// for, where the name is not empty; none for a selector of another form.
pub open spec fn custom_name(selector: Seq<char>) -> Option<Seq<char>> {
    if has_prefix(selector, custom_lead()) && selector.len() > custom_lead().len() {
        Some(selector.skip(custom_lead().len() as int))
    } else {
        None
    }
}

/// The position of the first record for `layer`, or the number of records.
pub open spec fn find_record(records: Seq<(LayerType, PathBuf)>, layer: LayerType) -> int
    decreases records.len(),
{
    if records.len() == 0 {
        0
    } else if records[0].0 == layer {
        0
    } else {
        1 + find_record(records.skip(1), layer)
    }
}

/// The records once `layer` is written to `path`: a layer written before
/// has its record replaced, the later file winning.
pub open spec fn recorded(records: Seq<(LayerType, PathBuf)>, layer: LayerType, path: PathBuf) -> Seq<
    (LayerType, PathBuf),
> {
    let k = find_record(records, layer);
    if 0 <= k < records.len() {
        records.update(k, (layer, path))
    } else {
        records.push((layer, path))
    }
}

/// Whether no layer has two records.
pub open spec fn distinct_layers(records: Seq<(LayerType, PathBuf)>) -> bool {
    forall|i: int, j: int|
        0 <= i < j < records.len() ==> (#[trigger] records[i]).0 != (#[trigger] records[j]).0
}

/// The layers of the records, in order.
pub open spec fn layers_of(records: Seq<(LayerType, PathBuf)>) -> Seq<LayerType> {
    Seq::new(records.len(), |i: int| records[i].0)
}

/// `find_record` is the one position before which no record is for the layer
/// and at which one is, or the number of records.
pub proof fn lemma_find_record(records: Seq<(LayerType, PathBuf)>, layer: LayerType, k: int)
    requires
        0 <= k <= records.len(),
        forall|i: int| 0 <= i < k ==> (#[trigger] records[i]).0 != layer,
        k < records.len() ==> records[k].0 == layer,
    ensures
        find_record(records, layer) == k,
    decreases records.len(),
{
    if records.len() > 0 && records[0].0 != layer {
        let rest = records.skip(1);
        assert forall|i: int| 0 <= i < k - 1 implies (#[trigger] rest[i]).0 != layer by {
            assert(rest[i] == records[i + 1]);
        }
        lemma_find_record(rest, layer, k - 1);
    }
}

/// Whether a file is one that the Gerber rewriting applies to: the dialect
/// classifies it, and not as a drill layer.
pub open spec fn is_gerber_file(table: PatternTable, file: InputFile) -> bool {
    match_name(table.entries, file.name@) is Some && !match_name(
        table.entries,
        file.name@,
    )->0.is_drill()
}

/// Whether some Gerber file of the batch holds a bare select code, so that
/// the whole batch gets the prefix.
pub open spec fn batch_needs_prefix(table: PatternTable, files: Seq<InputFile>) -> bool {
    exists|i: int|
        0 <= i < files.len() && is_gerber_file(table, #[trigger] files[i]) && has_missing_prefix(
            files[i].content@,
        )
}

/// Whether the batch holds a Gerber file at all.
pub open spec fn batch_has_gerber(table: PatternTable, files: Seq<InputFile>) -> bool {
    exists|i: int| 0 <= i < files.len() && is_gerber_file(table, #[trigger] files[i])
}

/// Whether `out` is what becomes of `file`: it bears the canonical name of
/// the layer that the dialect gives the file; a drill file keeps its
/// content, and any other file holds the transformation of its content for
/// some timestamp and some draws.
pub open spec fn is_output_of(
    settings: GerberProcessor,
    table: PatternTable,
    needs_prefix: bool,
    file: InputFile,
    out: OutputFile,
) -> bool {
    &&& match_name(table.entries, file.name@) == Some(out.layer)
    &&& out.name@ == out.layer.jlc_filename()
    &&& if out.layer.is_drill() {
        out.content@ == file.content@
    } else {
        exists|timestamp: Seq<char>, slot_draw: int, size_draw: int|
            0 <= slot_draw < 5 && 0 <= size_draw < 100 && #[trigger] transformed(
                settings,
                file.content@,
                needs_prefix,
                timestamp,
                slot_draw,
                size_draw,
            ) == Some(out.content@)
    }
}

/// Whether `outs` are what becomes of `files`, in order: one output for each
/// file that the dialect classifies, none for the others.
pub open spec fn are_outputs_of(
    settings: GerberProcessor,
    table: PatternTable,
    needs_prefix: bool,
    files: Seq<InputFile>,
    outs: Seq<OutputFile>,
) -> bool
    decreases files.len(),
{
    if files.len() == 0 {
        outs.len() == 0
    } else if match_name(table.entries, files.last().name@) is None {
        are_outputs_of(settings, table, needs_prefix, files.drop_last(), outs)
    } else {
        &&& outs.len() > 0
        &&& is_output_of(settings, table, needs_prefix, files.last(), outs.last())
        &&& are_outputs_of(settings, table, needs_prefix, files.drop_last(), outs.drop_last())
    }
}

/// The name of the dialect that a selector of the form `custom:<name>`
/// asks for, or none for a selector of another form.
pub fn custom_dialect_name(selector: &str) -> (r: Option<String>)
    ensures
        match r {
            Some(name) => custom_name(selector@) == Some(name@),
            None => custom_name(selector@) is None,
        },
{
    let text = chars_of(selector);
    let lead = chars_of("custom:");
    if starts_with(text.as_slice(), lead.as_slice()) && text.len() > lead.len() {
        let name = slice_chars(text.as_slice(), lead.len(), text.len());
        Some(string_of(name.as_slice()))
    } else {
        None
    }
}

impl Converter {
    /// What the run has written so far: each layer with the path of its
    /// file, no layer twice.
    pub open spec fn processed(&self) -> Seq<(LayerType, PathBuf)> {
        self.processed_files@
    }

    /// Whether no layer has two records.
    pub open spec fn wf(&self) -> bool {
        distinct_layers(self.processed())
    }

    /// A run with the given settings, which shows progress unless they
    /// forbid it and has written nothing yet.
    pub fn new(config: Config) -> (r: Self)
        ensures
            r.config == config,
            r.progress_tracker.enabled == !config.no_progress,
            r.gerber_processor == default_settings(),
            r.processed() == Seq::<(LayerType, PathBuf)>::empty(),
            r.wf(),
    {
        let progress_enabled = !config.no_progress;
        Self {
            config,
            progress_tracker: ProgressTracker::new(progress_enabled),
            gerber_processor: GerberProcessor::new(),
            processed_files: Vec::new(),
        }
    }

    /// Whether a layer goes through the Gerber rewriting: all but the drill
    /// layers do.
    pub fn should_process_gerber(&self, layer_type: &LayerType) -> (r: bool)
        ensures
            r == !layer_type.is_drill(),
    {
        !layer_type.is_drill_layer()
    }

    /// The dialect for the run: detected from the filenames if the settings
    /// say `auto`; the known dialect that they name; or, for `custom:` and a
    /// name, a dialect of that name without rules. Any other selector is
    /// refused as unsupported.
    pub fn create_pattern_matcher(&self, filenames: &[String]) -> (r: Result<
        EdaPatterns,
        TransJlcError,
    >)
        ensures
            ({
                let lower = lowercase_of(self.config.eda@);
                if lower == "auto"@ {
                    match r {
                        Ok(found) => detected(filenames.deep_view()) == Some(found@),
                        Err(e) => e == TransJlcError::NoMatchingPattern && detected(
                            filenames.deep_view(),
                        ) is None,
                    }
                } else if lower == "kicad"@ {
                    r is Ok && r->Ok_0@ == kicad_table()
                } else if lower == "protel"@ {
                    r is Ok && r->Ok_0@ == protel_table()
                } else if lower == "jlc"@ {
                    r is Ok && r->Ok_0@ == jlc_table()
                } else {
                    match custom_name(lower) {
                        Some(name) => r is Ok && r->Ok_0@.name == name && r->Ok_0@.entries.len()
                            == 0,
                        None => r is Err && r->Err_0 is UnsupportedEda
                            && r->Err_0->UnsupportedEda_format@ == lower,
                    }
                }
            }),
            r is Ok ==> r->Ok_0.wf(),
    {
        match self.config.get_eda_type() {
            EdaType::Auto => PatternMatcher::auto_detect_eda(filenames),
            EdaType::KiCad => Ok(PatternMatcher::create_kicad_patterns()),
            EdaType::Protel => Ok(PatternMatcher::create_protel_patterns()),
            EdaType::Jlc => Ok(PatternMatcher::create_jlc_patterns()),
            EdaType::Custom(selector) => match custom_dialect_name(selector.as_str()) {
                Some(name) => Ok(PatternMatcher::create_custom_patterns(name)),
                None => Err(TransJlcError::UnsupportedEda { format: selector }),
            },
        }
    }

    /// Decides once for the batch whether select codes get their prefix:
    /// they do if any Gerber file of the batch holds a bare one. Fails only
    /// if the batch holds a Gerber file and the pattern of a select code does
    /// not compile.
    #[verifier::loop_isolation(false)]
    pub fn determine_g54_requirement(&self, files: &Vec<InputFile>, patterns: &EdaPatterns) -> (r:
        Result<bool, TransJlcError>)
        ensures
            match r {
                Ok(needed) => needed == batch_needs_prefix(patterns@, files@) && (batch_has_gerber(
                    patterns@,
                    files@,
                ) ==> regex_compiles(select_pattern())),
                Err(e) => batch_has_gerber(patterns@, files@) && !regex_compiles(select_pattern())
                    && is_format_error(e),
            },
    {
        let mut i: usize = 0;
        while i < files.len()
            invariant
                i <= files@.len(),
                forall|j: int|
                    0 <= j < i ==> !(is_gerber_file(patterns@, #[trigger] files@[j])
                        && has_missing_prefix(files@[j].content@)),
                (exists|j: int| 0 <= j < i && is_gerber_file(patterns@, #[trigger] files@[j]))
                    ==> regex_compiles(select_pattern()),
            decreases files@.len() - i,
        {
            let file = &files[i];
            if let Some(layer_type) = patterns.match_filename(file.name.as_str()) {
                if self.should_process_gerber(&layer_type) {
                    assert(is_gerber_file(patterns@, files@[i as int]));
                    match self.gerber_processor.has_missing_g54_aperture_prefix(
                        file.content.as_str(),
                    ) {
                        Ok(missing) => {
                            if missing {
                                return Ok(true);
                            }
                        },
                        Err(e) => {
                            return Err(e);
                        },
                    }
                }
            }
            i += 1;
        }
        Ok(false)
    }

    /// Makes the output for one file: none for a file that the dialect does
    /// not classify, the content as it is under the canonical name for a
    /// drill file, the transformed content under the canonical name for any
    /// other. Fails only if a pattern that the transformation uses does not
    /// compile.
    pub fn process_single_file(
        &self,
        file: &InputFile,
        patterns: &EdaPatterns,
        needs_g54_aperture_prefix: bool,
    ) -> (r: Result<Option<OutputFile>, TransJlcError>)
        ensures
            match r {
                Ok(None) => match_name(patterns@.entries, file.name@) is None,
                Ok(Some(out)) => is_output_of(
                    self.gerber_processor,
                    patterns@,
                    needs_g54_aperture_prefix,
                    *file,
                    out,
                ),
                Err(e) => (is_format_error(e) || is_hash_error(e)) && is_gerber_file(
                    patterns@,
                    *file,
                ) && exists|timestamp: Seq<char>, slot_draw: int, size_draw: int|
                    0 <= slot_draw < 5 && 0 <= size_draw < 100 && #[trigger] transformed(
                        self.gerber_processor,
                        file.content@,
                        needs_g54_aperture_prefix,
                        timestamp,
                        slot_draw,
                        size_draw,
                    ) is None,
            },
            r is Ok && r->Ok_0 is Some ==> r->Ok_0->0.layer.is_layer(),
            all_patterns_compile() ==> r is Ok,
    {
        let layer = match patterns.match_filename(file.name.as_str()) {
            Some(layer) => layer,
            None => {
                return Ok(None);
            },
        };
        let name = layer.to_jlc_filename();
        if self.should_process_gerber(&layer) {
            match self.gerber_processor.process_gerber_content(
                file.content.clone(),
                needs_g54_aperture_prefix,
            ) {
                Ok(content) => Ok(Some(OutputFile { layer, name, content })),
                Err(e) => Err(e),
            }
        } else {
            Ok(Some(OutputFile { layer, name, content: file.content.clone() }))
        }
    }

    /// Makes the outputs of a batch, in the order of its files, with the
    /// prefix decided once for all of them.
    #[verifier::loop_isolation(false)]
    pub fn process_files(&self, files: &Vec<InputFile>, patterns: &EdaPatterns) -> (r: Result<
        Vec<OutputFile>,
        TransJlcError,
    >)
        ensures
            r is Ok ==> are_outputs_of(
                self.gerber_processor,
                patterns@,
                batch_needs_prefix(patterns@, files@),
                files@,
                r->Ok_0@,
            ),
            r is Err ==> batch_has_gerber(patterns@, files@) && (is_format_error(r->Err_0)
                || is_hash_error(r->Err_0)),
            all_patterns_compile() ==> r is Ok,
    {
        let needs_prefix = match self.determine_g54_requirement(files, patterns) {
            Ok(needed) => needed,
            Err(e) => {
                return Err(e);
            },
        };
        let mut outs: Vec<OutputFile> = Vec::new();
        let mut i: usize = 0;
        assert(files@.take(0).len() == 0);
        while i < files.len()
            invariant
                i <= files@.len(),
                are_outputs_of(
                    self.gerber_processor,
                    patterns@,
                    needs_prefix,
                    files@.take(i as int),
                    outs@,
                ),
            decreases files@.len() - i,
        {
            let ghost next = files@.take(i + 1);
            assert(next.drop_last() == files@.take(i as int));
            assert(next.last() == files@[i as int]);
            match self.process_single_file(&files[i], patterns, needs_prefix) {
                Ok(Some(out)) => {
                    let ghost before = outs@;
                    outs.push(out);
                    assert(outs@.drop_last() == before);
                },
                Ok(None) => {},
                Err(e) => {
                    assert(is_gerber_file(patterns@, files@[i as int]));
                    return Err(e);
                },
            }
            i += 1;
        }
        assert(files@.take(files@.len() as int) == files@);
        Ok(outs)
    }

    /// Records that `layer` was written to `path`. A layer written before
    /// has its record replaced: the later file wins.
    pub fn record_processed(&mut self, layer: LayerType, path: PathBuf)
        ensures
            final(self).processed() == recorded(old(self).processed(), layer, path),
            final(self).config == old(self).config,
            final(self).progress_tracker == old(self).progress_tracker,
            final(self).gerber_processor == old(self).gerber_processor,
            old(self).wf() ==> final(self).wf(),
    {
        let ghost before = self.processed_files@;
        let mut k: usize = 0;
        while k < self.processed_files.len() && self.processed_files[k].0 != layer
            invariant
                k <= self.processed_files@.len(),
                *self == *old(self),
                forall|i: int| 0 <= i < k ==> (#[trigger] self.processed_files@[i]).0 != layer,
            decreases self.processed_files@.len() - k,
        {
            k += 1;
        }
        proof {
            lemma_find_record(before, layer, k as int);
        }
        if k < self.processed_files.len() {
            self.processed_files.set(k, (layer, path));
        } else {
            self.processed_files.push((layer, path));
        }
    }

    /// Takes the read-me that goes with every output into the run: given its
    /// bytes and the path they are written to, records it among the other
    /// files and hands the bytes back. Without the bytes the run fails.
    pub fn add_required_assets(&mut self, asset: Option<Vec<u8>>, path: PathBuf) -> (r: Result<
        Vec<u8>,
        TransJlcError,
    >)
        ensures
            match r {
                Ok(bytes) => asset == Some(bytes) && final(self).processed() == recorded(
                    old(self).processed(),
                    LayerType::Other,
                    path,
                ),
                Err(e) => asset is None && final(self).processed() == old(self).processed() && e
                    is MissingAsset && e->MissingAsset_name@ == required_asset_name(),
            },
            final(self).config == old(self).config,
            old(self).wf() ==> final(self).wf(),
    {
        match asset {
            Some(bytes) => {
                self.record_processed(LayerType::Other, path);
                Ok(bytes)
            },
            None => Err(TransJlcError::MissingAsset { name: "PCB下单必读.txt".to_owned() }),
        }
    }

    /// What the run has produced: how many files, of which layers, and in
    /// which form they leave.
    pub fn get_conversion_stats(&self) -> (r: ConversionStats)
        ensures
            r.total_files_processed == self.processed().len(),
            r.layer_types_found@ == layers_of(self.processed()),
            r.output_format@ == (if self.config.zip {
                "ZIP"@
            } else {
                "Files"@
            }),
    {
        let mut layers: Vec<LayerType> = Vec::new();
        let mut i: usize = 0;
        while i < self.processed_files.len()
            invariant
                i <= self.processed_files@.len(),
                layers@ == layers_of(self.processed_files@.take(i as int)),
            decreases self.processed_files@.len() - i,
        {
            layers.push(self.processed_files[i].0);
            assert(layers@ =~= layers_of(self.processed_files@.take(i + 1)));
            i += 1;
        }
        assert(self.processed_files@.take(self.processed_files@.len() as int)
            == self.processed_files@);
        ConversionStats {
            total_files_processed: self.processed_files.len(),
            layer_types_found: layers,
            output_format: if self.config.zip {
                "ZIP".to_owned()
            } else {
                "Files".to_owned()
            },
        }
    }
}

} // verus!
