//! Rewriting of Gerber content: the generator header, the prefix on aperture
//! select codes, and the fingerprint aperture.

use crate::ambient::local_timestamp;
use crate::ambient::random_below;
use crate::digest::hex_text;
use crate::digest::md5_digest;
use crate::digest::md5_of;
use crate::digest::to_hex;
use crate::error::TransJlcError;
use crate::regexp::captures_iter;
use crate::regexp::captures_of;
use crate::regexp::group_number;
use crate::regexp::group_text;
use crate::regexp::interleave;
use crate::regexp::captures_each;
use crate::regexp::is_match_each;
use crate::regexp::number_of_group;
use crate::regexp::regex_captures_iter;
use crate::regexp::regex_compiles;
use crate::regexp::regex_is_match;
use crate::regexp::regex_replace_all;
use crate::regexp::regex_replace_first;
use crate::regexp::regex_split;
use crate::regexp::replace_all_each;
use crate::regexp::replace_first;
use crate::regexp::split;
use crate::regexp::weave;
use crate::regexp::whole_matches;
use crate::text::append_chars;
use crate::text::append_str;
use crate::text::chars_of;
use crate::text::contains;
use crate::text::contains_seq;
use crate::text::decimal;
use crate::text::digit_char;
use crate::text::digit_to_char;
use crate::text::has_prefix;
use crate::text::join_chars;
use crate::text::join_with;
use crate::text::lemma_chars_deep_view;
use crate::text::parse_u32;
use crate::text::parsed_u32;
use crate::text::push_decimal;
use crate::text::split_chars;
use crate::text::split_on;
use crate::text::starts_with;
use crate::text::string_of;
use vstd::prelude::*;
use vstd::utf8::encode_utf8;

verus! {

/// The largest aperture number. A definition that bears it is never
/// renumbered.
pub const MAX_APERTURE_NUMBER: u32 = 9999;

/// The number of leading lines that the aperture scan reads in any case.
pub const SCAN_WINDOW: usize = 200;

/// The line past which the aperture scan never reads.
pub const SCAN_LIMIT: usize = 20198;

/// The size of content, in bytes, above which no fingerprint is added unless
/// the caller sets another.
pub const DEFAULT_MAX_HASH_FILE_SIZE: usize = 30000000;

/// The settings of the Gerber rewriting.
pub struct GerberProcessor {
    /// No fingerprint aperture is added.
    pub ignore_hash: bool,
    /// The content comes from an imported board document, which changes what
    /// is hashed.
    pub is_imported_pcb_doc: bool,
    /// Content of more bytes than this gets no fingerprint aperture.
    pub max_hash_file_size: usize,
}

/// The settings that add a fingerprint to native content of up to thirty
/// million bytes.
pub open spec fn default_settings() -> GerberProcessor {
    GerberProcessor {
        ignore_hash: false,
        is_imported_pcb_doc: false,
        max_hash_file_size: DEFAULT_MAX_HASH_FILE_SIZE,
    }
}

impl Default for GerberProcessor {
    fn default() -> (r: Self)
        ensures
            r == default_settings(),
    {
        Self {
            ignore_hash: false,
            is_imported_pcb_doc: false,
            max_hash_file_size: DEFAULT_MAX_HASH_FILE_SIZE,
        }
    }
}

/// The two comment lines that name the generator and the time.
pub open spec fn header_text(timestamp: Seq<char>) -> Seq<char> {
    "G04 EasyEDA Pro v2.2.42.2, "@ + timestamp + "*\nG04 Gerber Generator version 0.3*\n"@
}

/// The text with every carriage return and line feed in a row replaced by a
/// line feed, from the left.
pub open spec fn normalized(s: Seq<char>) -> Seq<char>
    decreases s.len(),
{
    if s.len() >= 2 && s[0] == '\r' && s[1] == '\n' {
        seq!['\n'] + normalized(s.skip(2))
    } else if s.len() >= 1 {
        seq![s[0]] + normalized(s.skip(1))
    } else {
        Seq::empty()
    }
}

/// The content with normalized line ends, after the header.
pub open spec fn with_header(content: Seq<char>, timestamp: Seq<char>) -> Seq<char> {
    header_text(timestamp) + normalized(content)
}

/// The pattern of a select code without prefix: `D`, two to four digits and
/// an asterisk.
pub open spec fn select_pattern() -> Seq<char> {
    "(D\\d{2,4}\\*)"@
}

/// The replacement that puts the prefix before a select code.
pub open spec fn select_template() -> Seq<char> {
    "G54$1"@
}

/// Whether a line holds an aperture definition or a select code that has its
/// prefix. Such a line is never rewritten.
pub open spec fn is_settled_line(line: Seq<char>) -> bool {
    contains_seq(line, "%ADD"@) || contains_seq(line, "G54D"@)
}

/// A line with the prefix put before each bare select code in it.
pub open spec fn prefixed_line(line: Seq<char>) -> Seq<char> {
    if is_settled_line(line) {
        line
    } else {
        regex_replace_all(select_pattern(), line, select_template())
    }
}

/// The lines, each with its select codes prefixed.
pub open spec fn prefixed_lines(lines: Seq<Seq<char>>) -> Seq<Seq<char>> {
    Seq::new(lines.len(), |i: int| prefixed_line(lines[i]))
}

/// The content with the prefix put before every bare select code.
pub open spec fn prefixed(content: Seq<char>) -> Seq<char> {
    join_with(prefixed_lines(split_on(content, '\n')), "\n"@)
}

/// Whether a line holds a bare select code that prefixing would rewrite.
pub open spec fn lacks_prefix(line: Seq<char>) -> bool {
    !is_settled_line(line) && regex_is_match(select_pattern(), line)
}

/// Whether some line of the content holds a bare select code.
pub open spec fn has_missing_prefix(content: Seq<char>) -> bool {
    exists|i: int|
        0 <= i < split_on(content, '\n').len() && lacks_prefix(
            #[trigger] split_on(content, '\n')[i],
        )
}

/// The error for a pattern of the conversion that does not compile.
pub open spec fn is_format_error(e: TransJlcError) -> bool {
    e is InvalidGerberFormat
}

/// The error for a pattern of the fingerprinting that does not compile.
pub open spec fn is_hash_error(e: TransJlcError) -> bool {
    e is HashApertureError
}

/// Replaces every carriage return and line feed in a row by a line feed.
pub fn normalize_line_ends(s: &[char]) -> (r: Vec<char>)
    ensures
        r@ == normalized(s@),
{
    let mut out: Vec<char> = Vec::new();
    let mut i: usize = 0;
    assert(s@.skip(0) == s@);
    while i < s.len()
        invariant
            i <= s@.len(),
            normalized(s@) == out@ + normalized(s@.skip(i as int)),
        decreases s@.len() - i,
    {
        let ghost rest = s@.skip(i as int);
        if s[i] == '\r' && i + 1 < s.len() && s[i + 1] == '\n' {
            assert(rest.skip(2) == s@.skip(i + 2));
            out.push('\n');
            assert(out@ + normalized(s@.skip(i + 2)) =~= out@.drop_last() + (seq!['\n']
                + normalized(rest.skip(2))));
            i += 2;
        } else {
            assert(rest.skip(1) == s@.skip(i + 1));
            out.push(s[i]);
            assert(out@ + normalized(s@.skip(i + 1)) =~= out@.drop_last() + (seq![rest[0]]
                + normalized(rest.skip(1))));
            i += 1;
        }
    }
    assert(out@ + Seq::<char>::empty() =~= out@);
    out
}

/// The content with normalized line ends, after the header for `timestamp`.
pub fn header_with(content: &str, timestamp: &str) -> (r: String)
    ensures
        r@ == with_header(content@, timestamp@),
{
    let mut out: Vec<char> = Vec::new();
    append_str(&mut out, "G04 EasyEDA Pro v2.2.42.2, ");
    append_str(&mut out, timestamp);
    append_str(&mut out, "*\nG04 Gerber Generator version 0.3*\n");
    let body = chars_of(content);
    let clean = normalize_line_ends(body.as_slice());
    append_chars(&mut out, clean.as_slice());
    string_of(out.as_slice())
}

/// Tells whether a line holds an aperture definition or a prefixed select
/// code.
pub fn line_is_settled(line: &[char]) -> (r: bool)
    ensures
        r == is_settled_line(line@),
{
    let definition = chars_of("%ADD");
    let select = chars_of("G54D");
    contains(line, definition.as_slice()) || contains(line, select.as_slice())
}

/// The lines as strings.
pub fn lines_to_strings(lines: &Vec<Vec<char>>) -> (r: Vec<String>)
    ensures
        r.deep_view() == lines.deep_view(),
        r@.len() == lines@.len(),
{
    let mut out: Vec<String> = Vec::new();
    let mut i: usize = 0;
    while i < lines.len()
        invariant
            i <= lines@.len(),
            out@.len() == i,
            forall|j: int| 0 <= j < i ==> (#[trigger] out@[j])@ == lines@[j]@,
        decreases lines@.len() - i,
    {
        out.push(string_of(lines[i].as_slice()));
        i += 1;
    }
    assert(out.deep_view() =~= lines.deep_view()) by {
        assert forall|j: int| 0 <= j < lines@.len() implies out.deep_view()[j]
            == lines.deep_view()[j] by {
            lemma_chars_deep_view(lines@[j]);
        }
    }
    out
}

impl GerberProcessor {
    /// The settings that add a fingerprint to native content of up to thirty
    /// million bytes.
    pub fn new() -> (r: Self)
        ensures
            r == default_settings(),
    {
        Self {
            ignore_hash: false,
            is_imported_pcb_doc: false,
            max_hash_file_size: DEFAULT_MAX_HASH_FILE_SIZE,
        }
    }

    /// Sets whether the fingerprint aperture is left out.
    pub fn with_ignore_hash(self, ignore: bool) -> (r: Self)
        ensures
            r.ignore_hash == ignore,
            r.is_imported_pcb_doc == self.is_imported_pcb_doc,
            r.max_hash_file_size == self.max_hash_file_size,
    {
        Self {
            ignore_hash: ignore,
            is_imported_pcb_doc: self.is_imported_pcb_doc,
            max_hash_file_size: self.max_hash_file_size,
        }
    }

    /// Sets whether the content comes from an imported board document.
    pub fn with_imported_pcb_doc(self, imported: bool) -> (r: Self)
        ensures
            r.ignore_hash == self.ignore_hash,
            r.is_imported_pcb_doc == imported,
            r.max_hash_file_size == self.max_hash_file_size,
    {
        Self {
            ignore_hash: self.ignore_hash,
            is_imported_pcb_doc: imported,
            max_hash_file_size: self.max_hash_file_size,
        }
    }

    /// Sets the size in bytes above which content gets no fingerprint.
    pub fn with_max_hash_file_size(self, size: usize) -> (r: Self)
        ensures
            r.ignore_hash == self.ignore_hash,
            r.is_imported_pcb_doc == self.is_imported_pcb_doc,
            r.max_hash_file_size == size,
    {
        Self {
            ignore_hash: self.ignore_hash,
            is_imported_pcb_doc: self.is_imported_pcb_doc,
            max_hash_file_size: size,
        }
    }

    /// Puts the header for the present local time before the content, whose
    /// line ends it normalizes.
    pub fn add_gerber_header(&self, content: String) -> (r: String)
        ensures
            exists|timestamp: Seq<char>| r@ == with_header(content@, timestamp),
    {
        let now = local_timestamp();
        header_with(content.as_str(), now.as_str())
    }

    /// Puts the prefix before every bare select code, line by line. Lines
    /// that hold an aperture definition or a prefixed select code stay as
    /// they are. Fails only if the pattern of a select code does not compile.
    #[verifier::loop_isolation(false)]
    pub fn convert_kicad_aperture_format(&self, content: String) -> (r: Result<
        String,
        TransJlcError,
    >)
        ensures
            match r {
                Ok(text) => regex_compiles(select_pattern()) && text@ == prefixed(content@),
                Err(e) => !regex_compiles(select_pattern()) && is_format_error(e),
            },
    {
        let body = chars_of(content.as_str());
        let lines = split_chars(body.as_slice(), '\n');
        let texts = lines_to_strings(&lines);
        let replaced = match replace_all_each("(D\\d{2,4}\\*)", &texts, "G54$1") {
            Some(all) => all,
            None => {
                return Err(
                    TransJlcError::InvalidGerberFormat {
                        reason: "Failed to compile aperture regex".to_owned(),
                    },
                );
            },
        };
        let ghost source = split_on(content@, '\n');
        let mut out: Vec<Vec<char>> = Vec::new();
        let mut i: usize = 0;
        while i < lines.len()
            invariant
                i <= lines@.len(),
                source == lines.deep_view(),
                source == texts.deep_view(),
                replaced@.len() == lines@.len(),
                forall|j: int|
                    0 <= j < lines@.len() ==> (#[trigger] replaced@[j])@ == regex_replace_all(
                        select_pattern(),
                        texts@[j]@,
                        select_template(),
                    ),
                out@.len() == i,
                forall|j: int| 0 <= j < i ==> (#[trigger] out@[j])@ == prefixed_line(source[j]),
            decreases lines@.len() - i,
        {
            proof {
                lemma_chars_deep_view(lines@[i as int]);
                assert(source[i as int] == lines@[i as int]@);
                assert(texts.deep_view()[i as int] == texts@[i as int]@);
            }
            let line = if line_is_settled(lines[i].as_slice()) {
                chars_of(texts[i].as_str())
            } else {
                chars_of(replaced[i].as_str())
            };
            out.push(line);
            i += 1;
        }
        proof {
            assert(out.deep_view() =~= prefixed_lines(source)) by {
                assert forall|j: int| 0 <= j < out@.len() implies out.deep_view()[j]
                    == prefixed_lines(source)[j] by {
                    lemma_chars_deep_view(out@[j]);
                }
            }
        }
        let separator = chars_of("\n");
        let joined = join_chars(&out, separator.as_slice());
        Ok(string_of(joined.as_slice()))
    }

    /// Tells whether some line of the content holds a bare select code, one
    /// that `convert_kicad_aperture_format` would rewrite. Fails only if the
    /// pattern of a select code does not compile.
    #[verifier::loop_isolation(false)]
    pub fn has_missing_g54_aperture_prefix(&self, content: &str) -> (r: Result<bool, TransJlcError>)
        ensures
            match r {
                Ok(missing) => regex_compiles(select_pattern()) && missing == has_missing_prefix(
                    content@,
                ),
                Err(e) => !regex_compiles(select_pattern()) && is_format_error(e),
            },
    {
        let body = chars_of(content);
        let lines = split_chars(body.as_slice(), '\n');
        let texts = lines_to_strings(&lines);
        let bare = match is_match_each("(D\\d{2,4}\\*)", &texts) {
            Some(answers) => answers,
            None => {
                return Err(
                    TransJlcError::InvalidGerberFormat {
                        reason: "Failed to compile aperture regex".to_owned(),
                    },
                );
            },
        };
        let ghost source = split_on(content@, '\n');
        let mut i: usize = 0;
        while i < lines.len()
            invariant
                i <= lines@.len(),
                forall|j: int| 0 <= j < i ==> !lacks_prefix(#[trigger] source[j]),
            decreases lines@.len() - i,
        {
            proof {
                lemma_chars_deep_view(lines@[i as int]);
                assert(source[i as int] == lines@[i as int]@);
                assert(texts.deep_view()[i as int] == texts@[i as int]@);
            }
            if bare[i] && !line_is_settled(lines[i].as_slice()) {
                assert(lacks_prefix(source[i as int]));
                return Ok(true);
            }
            i += 1;
        }
        Ok(false)
    }
}

/// The pattern of an aperture definition line: the number is its one group.
pub open spec fn definition_pattern() -> Seq<char> {
    "^%ADD(\\d{2,4})\\D.*"@
}

/// The pattern of a line that belongs to the aperture definitions and macros.
pub open spec fn macro_pattern() -> Seq<char> {
    "^%AD|^%AM"@
}

/// The aperture definitions found at the head of a file: each definition
/// line with the number it defines, in the order of the lines.
pub struct ApertureTable {
    pub definitions: Seq<Seq<char>>,
    pub numbers: Seq<u32>,
}

impl ApertureTable {
    /// The table without entries.
    pub open spec fn empty() -> ApertureTable {
        ApertureTable { definitions: Seq::empty(), numbers: Seq::empty() }
    }

    /// The table with one more entry at its end.
    pub open spec fn with_entry(self, line: Seq<char>, number: u32) -> ApertureTable {
        ApertureTable {
            definitions: self.definitions.push(line),
            numbers: self.numbers.push(number),
        }
    }
}

/// Whether the scan for definitions stops before line `i`: past the window
/// it goes on only over definition and macro lines, and never past the limit.
pub open spec fn scan_ends_at(lines: Seq<Seq<char>>, i: int) -> bool {
    i > SCAN_WINDOW && (!regex_is_match(macro_pattern(), lines[i]) || i > SCAN_LIMIT)
}

/// The table that the scan builds from line `i` on, given what it holds so
/// far. A definition line adds an entry. Any other line ends the scan once
/// the table has an entry.
pub open spec fn scan_from(lines: Seq<Seq<char>>, i: int, table: ApertureTable) -> ApertureTable
    decreases lines.len() - i,
{
    if i < 0 || i >= lines.len() {
        table
    } else if scan_ends_at(lines, i) {
        table
    } else {
        match captures_of(definition_pattern(), lines[i]) {
            Some(groups) => match group_number(groups) {
                Some(n) => scan_from(lines, i + 1, table.with_entry(lines[i], n)),
                None => scan_from(lines, i + 1, table),
            },
            None => if table.numbers.len() > 0 {
                table
            } else {
                scan_from(lines, i + 1, table)
            },
        }
    }
}

/// The aperture definitions at the head of the content.
pub open spec fn aperture_table(content: Seq<char>) -> ApertureTable {
    scan_from(split_on(content, '\n'), 0, ApertureTable::empty())
}

/// Whatever the content, its table holds as many numbers as definitions: the
/// number at a position is the one that the line there defines.
pub proof fn lemma_table_pairs_lines_with_numbers(content: Seq<char>)
    ensures
        aperture_table(content).definitions.len() == aperture_table(content).numbers.len(),
{
    lemma_scan_keeps_pairs(split_on(content, '\n'), 0, ApertureTable::empty());
}

/// A scan that starts from a table of as many numbers as definitions ends
/// with one.
pub proof fn lemma_scan_keeps_pairs(lines: Seq<Seq<char>>, i: int, table: ApertureTable)
    requires
        table.definitions.len() == table.numbers.len(),
    ensures
        scan_from(lines, i, table).definitions.len() == scan_from(lines, i, table).numbers.len(),
    decreases lines.len() - i,
{
    if 0 <= i < lines.len() && !scan_ends_at(lines, i) {
        match captures_of(definition_pattern(), lines[i]) {
            Some(groups) => match group_number(groups) {
                Some(n) => lemma_scan_keeps_pairs(lines, i + 1, table.with_entry(lines[i], n)),
                None => lemma_scan_keeps_pairs(lines, i + 1, table),
            },
            None => if table.numbers.len() == 0 {
                lemma_scan_keeps_pairs(lines, i + 1, table);
            },
        }
    }
}

/// The aperture definitions found at the head of a file.
#[derive(Debug)]
pub struct ApertureInfo {
    /// The definition lines, as they stand in the file.
    pub definitions: Vec<String>,
    /// The number that each of the lines defines.
    pub numbers: Vec<u32>,
    /// The largest aperture number there is.
    pub max_number: u32,
}

impl View for ApertureInfo {
    type V = ApertureTable;

    open spec fn view(&self) -> ApertureTable {
        ApertureTable { definitions: self.definitions.deep_view(), numbers: self.numbers@ }
    }
}

impl ApertureInfo {
    /// Whether each definition has its number, and the largest number is the
    /// format's.
    pub open spec fn wf(&self) -> bool {
        self.definitions@.len() == self.numbers@.len() && self.max_number == MAX_APERTURE_NUMBER
    }
}

/// The fingerprint aperture that goes into a file.
#[derive(Debug)]
pub struct HashAperture {
    /// The definition line.
    pub definition: String,
    /// The number that the definition takes.
    pub target_number: u32,
    /// The digest of the content, in hexadecimal.
    pub hash: String,
}

impl GerberProcessor {
    /// Reads the aperture definitions at the head of the content: the first
    /// lines in any case, further while definition and macro lines go on.
    /// Content without definitions gives an empty table. Fails only if one of
    /// the two patterns of the scan does not compile.
    #[verifier::loop_isolation(false)]
    pub fn analyze_apertures(&self, content: &str) -> (r: Result<ApertureInfo, TransJlcError>)
        ensures
            match r {
                Ok(info) => regex_compiles(definition_pattern()) && regex_compiles(macro_pattern())
                    && info@ == aperture_table(content@) && info.wf(),
                Err(e) => !(regex_compiles(definition_pattern()) && regex_compiles(
                    macro_pattern(),
                )) && is_hash_error(e),
            },
    {
        let body = chars_of(content);
        let mut lines = split_chars(body.as_slice(), '\n');
        let ghost source = split_on(content@, '\n');
        if lines.len() > SCAN_LIMIT + 1 {
            let ghost all = lines;
            lines.truncate(SCAN_LIMIT + 1);
            assert(lines.deep_view() =~= source.take(SCAN_LIMIT + 1)) by {
                assert forall|j: int| 0 <= j < lines@.len() implies lines.deep_view()[j]
                    == source[j] by {
                    assert(all.deep_view()[j] == all@[j].deep_view());
                }
            }
        } else {
            assert(source.take(source.len() as int) == source);
        }
        let texts = lines_to_strings(&lines);
        let found = match captures_each("^%ADD(\\d{2,4})\\D.*", &texts) {
            Some(found) => found,
            None => {
                return Err(
                    TransJlcError::HashApertureError {
                        reason: "Failed to compile aperture analysis regex".to_owned(),
                    },
                );
            },
        };
        let macros = match is_match_each("^%AD|^%AM", &texts) {
            Some(answers) => answers,
            None => {
                return Err(
                    TransJlcError::HashApertureError {
                        reason: "Failed to compile aperture macro regex".to_owned(),
                    },
                );
            },
        };
        let mut info = ApertureInfo {
            definitions: Vec::new(),
            numbers: Vec::new(),
            max_number: MAX_APERTURE_NUMBER,
        };
        assert(info@ == ApertureTable::empty()) by {
            assert(info.definitions.deep_view() =~= Seq::<Seq<char>>::empty());
        }
        let mut i: usize = 0;
        while i < texts.len()
            invariant
                i <= texts@.len(),
                info.wf(),
                aperture_table(content@) == scan_from(source, i as int, info@),
            decreases texts@.len() - i,
        {
            assert(source[i as int] == texts@[i as int]@) by {
                assert(texts.deep_view()[i as int] == texts@[i as int]@);
            }
            if i > SCAN_WINDOW && (!macros[i] || i > SCAN_LIMIT) {
                return Ok(info);
            }
            match &found[i] {
                Some(groups) => {
                    if let Some(n) = number_of_group(groups) {
                        let ghost before = info@;
                        let ghost lines_before = info.definitions.deep_view();
                        info.definitions.push(texts[i].clone());
                        info.numbers.push(n);
                        assert(info@ == before.with_entry(source[i as int], n)) by {
                            assert(info.definitions.deep_view() =~= lines_before.push(
                                source[i as int],
                            ));
                        }
                    }
                },
                None => {
                    if info.numbers.len() > 0 {
                        return Ok(info);
                    }
                },
            }
            i += 1;
        }
        proof {
            if texts@.len() < source.len() {
                assert(scan_ends_at(source, texts@.len() as int));
            }
        }
        Ok(info)
    }
}

/// The pattern of the first size in a definition: a comma, then digits and
/// dots.
pub open spec fn size_pattern() -> Seq<char> {
    ",([\\d.]+)"@
}

/// The position in the table of the definition that the fingerprint is
/// modelled on: five plus the draw, but no further than the last entry.
pub open spec fn chosen_slot(count: int, slot_draw: int) -> int {
    if count > 1 {
        if 5 + slot_draw < count - 1 {
            5 + slot_draw
        } else {
            count - 1
        }
    } else {
        0
    }
}

/// The number that the fingerprint aperture takes: that of the chosen
/// definition, or 10 where the file defines no aperture.
pub open spec fn target_number(table: ApertureTable, slot_draw: int) -> u32 {
    if table.numbers.len() == 0 {
        10
    } else {
        table.numbers[chosen_slot(table.numbers.len() as int, slot_draw)]
    }
}

/// The four bytes that go before the content of an imported board document
/// when it is hashed.
pub open spec fn imported_marker() -> Seq<u8> {
    seq![52u8, 57u8, 52u8, 100u8]
}

/// The bytes that are hashed: the content as UTF-8, after the marker where
/// the document is imported.
pub open spec fn hash_input(content: Seq<char>, imported: bool) -> Seq<u8> {
    if imported {
        imported_marker() + encode_utf8(content)
    } else {
        encode_utf8(content)
    }
}

/// The number that the digest leaves in the size: its last byte, modulo 100.
pub open spec fn hash_number(content: Seq<char>, imported: bool) -> int {
    md5_of(hash_input(content, imported)).last() as int % 100
}

/// A number below 100 in two decimal digits.
pub open spec fn two_digits(n: int) -> Seq<char> {
    seq![digit_char(n / 10), digit_char(n % 10)]
}

/// The size of the fingerprint aperture: a base of `size_draw` hundredths,
/// then the two digits of the hash number. Where that would be zero, the
/// smallest size that is accepted takes its place.
pub open spec fn fingerprint_size(size_draw: int, hash_number: int) -> Seq<char> {
    if size_draw == 0 && hash_number == 0 {
        "0.0100"@
    } else {
        "0."@ + two_digits(size_draw) + two_digits(hash_number)
    }
}

/// The definition line of the fingerprint aperture: the chosen definition
/// with its first size replaced, or a circle where the file defines no
/// aperture.
pub open spec fn fingerprint_definition(
    table: ApertureTable,
    slot_draw: int,
    size: Seq<char>,
) -> Seq<char> {
    if table.numbers.len() == 0 {
        "%ADD"@ + decimal(10) + "C,"@ + size + "*%"@
    } else {
        regex_replace_first(
            size_pattern(),
            table.definitions[chosen_slot(table.numbers.len() as int, slot_draw)],
            ","@ + size,
        )
    }
}

/// The last two characters of a text.
pub open spec fn last_two(s: Seq<char>) -> Seq<char> {
    s.subrange(s.len() - 2, s.len() as int)
}

/// Whatever the base size drawn, the size of the fingerprint aperture ends in
/// the two digits of the hash number, which the content and the imported
/// flag alone decide.
pub proof fn lemma_fingerprint_suffix(size_draw: int, content: Seq<char>, imported: bool)
    requires
        0 <= size_draw < 100,
    ensures
        last_two(fingerprint_size(size_draw, hash_number(content, imported))) == two_digits(
            hash_number(content, imported),
        ),
{
    let h = hash_number(content, imported);
    reveal_strlit("0.0100");
    reveal_strlit("0.");
    assert(last_two(fingerprint_size(size_draw, h)) =~= two_digits(h));
}

/// Appends a number below 100 in two decimal digits.
pub fn push_two_digits(buf: &mut Vec<char>, n: u32)
    requires
        n < 100,
    ensures
        final(buf)@ == old(buf)@ + two_digits(n as int),
{
    buf.push(digit_to_char((n / 10) as u8));
    buf.push(digit_to_char((n % 10) as u8));
    assert(buf@ =~= old(buf)@ + two_digits(n as int));
}

/// Writes the size of the fingerprint aperture from the base size drawn, in
/// hundredths, and the last byte of the digest.
pub fn write_fingerprint_size(size_draw: u32, last_byte: u8) -> (r: Vec<char>)
    requires
        size_draw < 100,
    ensures
        r@ == fingerprint_size(size_draw as int, last_byte as int % 100),
{
    let number: u32 = (last_byte % 100) as u32;
    let mut size: Vec<char> = Vec::new();
    if size_draw == 0 && number == 0 {
        append_str(&mut size, "0.0100");
    } else {
        append_str(&mut size, "0.");
        push_two_digits(&mut size, size_draw);
        push_two_digits(&mut size, number);
    }
    size
}

/// The bytes that are hashed for the content.
pub fn bytes_to_hash(content: &str, imported: bool) -> (r: Vec<u8>)
    ensures
        r@ == hash_input(content@, imported),
{
    let mut out: Vec<u8> = Vec::new();
    if imported {
        out.push(52u8);
        out.push(57u8);
        out.push(52u8);
        out.push(100u8);
    }
    let bytes = content.as_bytes();
    let mut i: usize = 0;
    while i < bytes.len()
        invariant
            i <= bytes@.len(),
            bytes@ == encode_utf8(content@),
            out@ == (if imported {
                imported_marker()
            } else {
                Seq::<u8>::empty()
            }) + bytes@.take(i as int),
        decreases bytes@.len() - i,
    {
        out.push(bytes[i]);
        i += 1;
    }
    assert(bytes@.take(bytes@.len() as int) == bytes@);
    assert(Seq::<u8>::empty() + bytes@ =~= bytes@);
    out
}

impl GerberProcessor {
    /// Makes the fingerprint aperture for the content from the two draws: the
    /// first picks the definition it is modelled on, the second its base
    /// size in hundredths. Fails only if a definition is to be reused and the
    /// pattern of a size does not compile.
    pub fn hash_aperture_with(
        &self,
        content: &str,
        aperture_info: &ApertureInfo,
        slot_draw: u32,
        size_draw: u32,
    ) -> (r: Result<HashAperture, TransJlcError>)
        requires
            aperture_info.wf(),
            slot_draw < 5,
            size_draw < 100,
        ensures
            match r {
                Ok(aperture) => {
                    &&& aperture_info@.numbers.len() > 0 ==> regex_compiles(size_pattern())
                    &&& aperture.target_number == target_number(aperture_info@, slot_draw as int)
                    &&& aperture.definition@ == fingerprint_definition(
                        aperture_info@,
                        slot_draw as int,
                        fingerprint_size(
                            size_draw as int,
                            hash_number(content@, self.is_imported_pcb_doc),
                        ),
                    )
                    &&& aperture.hash@ == hex_text(
                        md5_of(hash_input(content@, self.is_imported_pcb_doc)),
                    )
                },
                Err(e) => aperture_info@.numbers.len() > 0 && !regex_compiles(size_pattern())
                    && is_hash_error(e),
            },
    {
        let message = bytes_to_hash(content, self.is_imported_pcb_doc);
        let digest = md5_digest(message.as_slice());
        let hash = to_hex(digest.as_slice());
        let size = write_fingerprint_size(size_draw, digest[15]);
        let count: usize = aperture_info.numbers.len();
        if count == 0 {
            let mut definition: Vec<char> = Vec::new();
            append_str(&mut definition, "%ADD");
            push_decimal(&mut definition, 10);
            append_str(&mut definition, "C,");
            append_chars(&mut definition, size.as_slice());
            append_str(&mut definition, "*%");
            return Ok(
                HashAperture {
                    definition: string_of(definition.as_slice()),
                    target_number: 10,
                    hash: string_of(hash.as_slice()),
                },
            );
        }
        let slot: usize = if count > 1 {
            if 5 + (slot_draw as usize) < count - 1 {
                5 + slot_draw as usize
            } else {
                count - 1
            }
        } else {
            0
        };
        let mut literal: Vec<char> = Vec::new();
        literal.push(',');
        append_chars(&mut literal, size.as_slice());
        assert(literal@ =~= ","@ + size@) by {
            reveal_strlit(",");
        }
        let literal_text = string_of(literal.as_slice());
        assert(aperture_info.definitions.deep_view()[slot as int]
            == aperture_info.definitions@[slot as int]@);
        match replace_first(
            ",([\\d.]+)",
            aperture_info.definitions[slot].as_str(),
            literal_text.as_str(),
        ) {
            Some(definition) => Ok(
                HashAperture {
                    definition,
                    target_number: aperture_info.numbers[slot],
                    hash: string_of(hash.as_slice()),
                },
            ),
            None => Err(
                TransJlcError::HashApertureError {
                    reason: "Failed to compile size regex".to_owned(),
                },
            ),
        }
    }

    /// Makes the fingerprint aperture for the content, with a slot and a base
    /// size drawn at random.
    pub fn generate_hash_aperture(&self, content: &str, aperture_info: &ApertureInfo) -> (r: Result<
        HashAperture,
        TransJlcError,
    >)
        requires
            aperture_info.wf(),
        ensures
            match r {
                Ok(aperture) => {
                    &&& aperture.hash@ == hex_text(
                        md5_of(hash_input(content@, self.is_imported_pcb_doc)),
                    )
                    &&& exists|slot_draw: int, size_draw: int|
                        {
                            &&& 0 <= slot_draw < 5
                            &&& 0 <= size_draw < 100
                            &&& aperture.target_number == #[trigger] target_number(
                                aperture_info@,
                                slot_draw,
                            )
                            &&& aperture.definition@ == fingerprint_definition(
                                aperture_info@,
                                slot_draw,
                                #[trigger] fingerprint_size(
                                    size_draw,
                                    hash_number(content@, self.is_imported_pcb_doc),
                                ),
                            )
                        }
                },
                Err(e) => aperture_info@.numbers.len() > 0 && !regex_compiles(size_pattern())
                    && is_hash_error(e),
            },
            regex_compiles(size_pattern()) ==> r is Ok,
    {
        let slot_draw = random_below(5);
        let size_draw = random_below(100);
        self.hash_aperture_with(content, aperture_info, slot_draw, size_draw)
    }
}

/// The pattern of a line that bears an aperture number: a definition or a
/// prefixed select code. Its groups are the lead, the number and the rest.
pub open spec fn renumber_pattern() -> Seq<char> {
    "(?m)^(%ADD|G54D)(\\d{2,4})(.*)$"@
}

/// The pattern of the definition line of the number after `target`.
pub open spec fn next_definition_pattern(target: u32) -> Seq<char> {
    "(?m)^%ADD"@ + decimal((target + 1) as nat) + "(\\D)"@
}

/// The number that `n` becomes when room is made at `target`: numbers from
/// `target` on go up by one, but for the largest number, which stays.
pub open spec fn shifted_number(n: int, target: int, max: int) -> int {
    if n < target || n == max {
        n
    } else {
        n + 1
    }
}

/// The number that a match bears: group 2 as a number, or 0 if it parses as
/// none.
pub open spec fn match_number(groups: Seq<Option<Seq<char>>>) -> u32 {
    match parsed_u32(group_text(groups, 2)) {
        Some(n) => n,
        None => 0,
    }
}

/// What a matched line becomes when room is made at `target`: it stays as it
/// is where its number stays, and is written anew with the number after its
/// own where that goes up.
pub open spec fn renumbered_match(groups: Seq<Option<Seq<char>>>, target: u32, max: u32) -> Seq<
    char,
> {
    let n = match_number(groups);
    if n < target || n == max {
        group_text(groups, 0)
    } else {
        group_text(groups, 1) + decimal((n + 1) as nat) + group_text(groups, 3)
    }
}

/// Each of the matches, renumbered.
pub open spec fn renumbered_matches(
    found: Seq<Seq<Option<Seq<char>>>>,
    target: u32,
    max: u32,
) -> Seq<Seq<char>> {
    Seq::new(found.len(), |i: int| renumbered_match(found[i], target, max))
}

/// The content with room made at `target`: every definition and prefixed
/// select code renumbered, all else as it was.
pub open spec fn renumbered(content: Seq<char>, target: u32, max: u32) -> Seq<char> {
    interleave(
        regex_split(renumber_pattern(), content),
        renumbered_matches(regex_captures_iter(renumber_pattern(), content), target, max),
    )
}

/// Whether making room at `target` moves no number of the content: every
/// definition and prefixed select code bears a number below `target`, or the
/// largest.
pub open spec fn no_number_moves(content: Seq<char>, target: u32, max: u32) -> bool {
    let found = regex_captures_iter(renumber_pattern(), content);
    forall|i: int|
        0 <= i < found.len() ==> shifted_number(
            match_number(#[trigger] found[i]) as int,
            target as int,
            max as int,
        ) == match_number(found[i])
}

/// Whether a line sets the units.
pub open spec fn is_units_line(line: Seq<char>) -> bool {
    has_prefix(line, "%MO"@)
}

/// Whether a line sets the polarity or is a `G` command: the definitions end
/// before it.
pub open spec fn is_anchor_line(line: Seq<char>) -> bool {
    has_prefix(line, "%LP"@) || has_prefix(line, "G"@)
}

/// The position of the first units line, or the number of lines.
pub open spec fn first_units(lines: Seq<Seq<char>>) -> int
    decreases lines.len(),
{
    if lines.len() == 0 {
        0
    } else if is_units_line(lines[0]) {
        0
    } else {
        1 + first_units(lines.skip(1))
    }
}

/// The position of the first anchor line, or the number of lines.
pub open spec fn first_anchor(lines: Seq<Seq<char>>) -> int
    decreases lines.len(),
{
    if lines.len() == 0 {
        0
    } else if is_anchor_line(lines[0]) {
        0
    } else {
        1 + first_anchor(lines.skip(1))
    }
}

/// Where a definition goes in a file that does not define the next number:
/// before the first anchor line after the first units line, or after the
/// last line where there is no such anchor.
pub open spec fn anchor_position(lines: Seq<Seq<char>>) -> int {
    let units = first_units(lines);
    if 0 <= units < lines.len() {
        units + 1 + first_anchor(lines.skip(units + 1))
    } else {
        lines.len() as int
    }
}

/// The content with the definition as a line of its own at the anchor.
pub open spec fn inserted_at_anchor(content: Seq<char>, definition: Seq<char>) -> Seq<char> {
    let lines = split_on(content, '\n');
    join_with(lines.insert(anchor_position(lines), definition), "\n"@)
}

/// The content with the definition put in: as a line before the definition
/// of the number after `target`, where the content has one, and at the
/// anchor otherwise.
pub open spec fn inserted(content: Seq<char>, definition: Seq<char>, target: u32) -> Seq<char> {
    let gaps = regex_split(next_definition_pattern(target), content);
    if gaps.len() > 1 {
        gaps[0] + definition + "\n"@ + content.skip(gaps[0].len() as int)
    } else {
        inserted_at_anchor(content, definition)
    }
}

/// A woven text of at least one gap begins with the first gap.
pub proof fn lemma_weave_begins(gaps: Seq<Seq<char>>, fills: Seq<Seq<char>>, n: int)
    requires
        1 <= n,
    ensures
        gaps[0].len() <= weave(gaps, fills, n).len(),
        weave(gaps, fills, n).take(gaps[0].len() as int) == gaps[0],
    decreases n,
{
    if n == 1 {
        assert(weave(gaps, fills, 0) == Seq::<char>::empty());
        assert(weave(gaps, fills, 1) =~= gaps[0] + fills[0]);
        assert((gaps[0] + fills[0]).take(gaps[0].len() as int) =~= gaps[0]);
    } else {
        lemma_weave_begins(gaps, fills, n - 1);
        let shorter = weave(gaps, fills, n - 1);
        assert(weave(gaps, fills, n).take(gaps[0].len() as int) =~= shorter.take(
            gaps[0].len() as int,
        ));
    }
}

/// The text of group `i`, or the empty text where the group is absent.
pub fn group_chars(groups: &Vec<Option<String>>, i: usize) -> (r: Vec<char>)
    ensures
        r@ == group_text(groups.deep_view(), i as int),
{
    if i < groups.len() {
        assert(groups.deep_view()[i as int] == groups@[i as int].deep_view());
        match &groups[i] {
            Some(text) => chars_of(text.as_str()),
            None => Vec::new(),
        }
    } else {
        Vec::new()
    }
}

/// What a matched line becomes when room is made at `target`.
pub fn renumber_match(groups: &Vec<Option<String>>, target: u32, max: u32) -> (r: Vec<char>)
    ensures
        r@ == renumbered_match(groups.deep_view(), target, max),
{
    let digits = group_chars(groups, 2);
    let n: u32 = match parse_u32(digits.as_slice()) {
        Some(n) => n,
        None => 0,
    };
    if n < target || n == max {
        group_chars(groups, 0)
    } else {
        let mut out = group_chars(groups, 1);
        push_decimal(&mut out, n as u64 + 1);
        let rest = group_chars(groups, 3);
        append_chars(&mut out, rest.as_slice());
        out
    }
}

/// Puts renumbered lines back between the stretches of content that lay
/// between them: each of the matches found, renumbered, after the stretch
/// before it, and the last stretch at the end.
pub fn renumber_found(
    gaps: &Vec<String>,
    found: &Vec<Vec<Option<String>>>,
    target: u32,
    max: u32,
) -> (r: Vec<char>)
    requires
        gaps@.len() == found@.len() + 1,
    ensures
        r@ == interleave(
            gaps.deep_view(),
            renumbered_matches(found.deep_view(), target, max),
        ),
{
    let ghost fills = renumbered_matches(found.deep_view(), target, max);
    let mut out: Vec<char> = Vec::new();
    let mut i: usize = 0;
    while i < found.len()
        invariant
            i <= found@.len(),
            gaps@.len() == found@.len() + 1,
            fills == renumbered_matches(found.deep_view(), target, max),
            out@ == weave(gaps.deep_view(), fills, i as int),
        decreases found@.len() - i,
    {
        assert(gaps.deep_view()[i as int] == gaps@[i as int]@);
        assert(found.deep_view()[i as int] == found@[i as int].deep_view());
        append_str(&mut out, gaps[i].as_str());
        let line = renumber_match(&found[i], target, max);
        append_chars(&mut out, line.as_slice());
        i += 1;
    }
    assert(gaps.deep_view()[found@.len() as int] == gaps@[found@.len() as int]@);
    append_str(&mut out, gaps[found.len()].as_str());
    out
}

/// Puts a definition into content as a line of its own, before the
/// character at `at`.
pub fn insert_line_at(content: &[char], at: usize, definition: &[char]) -> (r: Vec<char>)
    requires
        at <= content@.len(),
    ensures
        r@ == content@.take(at as int) + definition@ + "\n"@ + content@.skip(at as int),
{
    let mut out = crate::text::slice_chars(content, 0, at);
    append_chars(&mut out, definition);
    append_str(&mut out, "\n");
    let tail = crate::text::slice_chars(content, at, content.len());
    append_chars(&mut out, tail.as_slice());
    out
}

/// The position of the first units line, or the number of lines.
pub fn find_units(lines: &Vec<Vec<char>>) -> (r: usize)
    ensures
        r == first_units(lines.deep_view()),
        r <= lines@.len(),
{
    let ghost all = lines.deep_view();
    let lead = chars_of("%MO");
    let mut i: usize = 0;
    assert(all.skip(0) == all);
    while i < lines.len()
        invariant
            i <= lines@.len(),
            all == lines.deep_view(),
            lead@ == "%MO"@,
            first_units(all) == i + first_units(all.skip(i as int)),
        decreases lines@.len() - i,
    {
        proof {
            lemma_chars_deep_view(lines@[i as int]);
            assert(all.skip(i as int)[0] == lines@[i as int]@);
            assert(all.skip(i as int).skip(1) == all.skip(i + 1));
        }
        if starts_with(lines[i].as_slice(), lead.as_slice()) {
            return i;
        }
        i += 1;
    }
    i
}

/// The position of the first anchor line from `from` on, or the number of
/// lines.
pub fn find_anchor(lines: &Vec<Vec<char>>, from: usize) -> (r: usize)
    requires
        from <= lines@.len(),
    ensures
        r == from + first_anchor(lines.deep_view().skip(from as int)),
        from <= r <= lines@.len(),
{
    let ghost all = lines.deep_view();
    let polarity = chars_of("%LP");
    let command = chars_of("G");
    let mut i: usize = from;
    while i < lines.len()
        invariant
            from <= i <= lines@.len(),
            all == lines.deep_view(),
            polarity@ == "%LP"@,
            command@ == "G"@,
            first_anchor(all.skip(from as int)) == i - from + first_anchor(all.skip(i as int)),
        decreases lines@.len() - i,
    {
        proof {
            lemma_chars_deep_view(lines@[i as int]);
            assert(all.skip(i as int)[0] == lines@[i as int]@);
            assert(all.skip(i as int).skip(1) == all.skip(i + 1));
        }
        if starts_with(lines[i].as_slice(), polarity.as_slice()) || starts_with(
            lines[i].as_slice(),
            command.as_slice(),
        ) {
            return i;
        }
        i += 1;
    }
    i
}

/// Puts the definition in as a line of its own at the anchor.
pub fn insert_at_anchor(content: &[char], definition: &[char]) -> (r: Vec<char>)
    ensures
        r@ == inserted_at_anchor(content@, definition@),
{
    let mut lines = split_chars(content, '\n');
    let ghost before = lines;
    let units = find_units(&lines);
    let at: usize = if units < lines.len() {
        find_anchor(&lines, units + 1)
    } else {
        lines.len()
    };
    let line = slice_all(definition);
    lines.insert(at, line);
    proof {
        lemma_chars_deep_view(line);
        assert(lines.deep_view() =~= before.deep_view().insert(at as int, definition@));
    }
    let separator = chars_of("\n");
    join_chars(&lines, separator.as_slice())
}

/// A copy of the text.
pub fn slice_all(s: &[char]) -> (r: Vec<char>)
    ensures
        r@ == s@,
{
    let mut out: Vec<char> = Vec::new();
    append_chars(&mut out, s);
    out
}

impl GerberProcessor {
    /// Makes room at `target_number`: every definition and prefixed select
    /// code whose number is `target_number` or more goes up by one, but for
    /// `max_number`, which stays. Content in which no number moves comes
    /// back as it is. Fails only if the pattern of a numbered line does not
    /// compile.
    pub fn renumber_apertures(&self, content: String, target_number: u32, max_number: u32) -> (r:
        Result<String, TransJlcError>)
        ensures
            match r {
                Ok(text) => regex_compiles(renumber_pattern()) && text@ == renumbered(
                    content@,
                    target_number,
                    max_number,
                ),
                Err(e) => !regex_compiles(renumber_pattern()) && is_hash_error(e),
            },
            r is Ok && no_number_moves(content@, target_number, max_number) ==> r->Ok_0@
                == content@,
    {
        let found = match captures_iter("(?m)^(%ADD|G54D)(\\d{2,4})(.*)$", content.as_str()) {
            Some(found) => found,
            None => {
                return Err(
                    TransJlcError::HashApertureError {
                        reason: "Failed to compile renumber regex".to_owned(),
                    },
                );
            },
        };
        let gaps = match split("(?m)^(%ADD|G54D)(\\d{2,4})(.*)$", content.as_str()) {
            Some(gaps) => gaps,
            None => {
                return Err(
                    TransJlcError::HashApertureError {
                        reason: "Failed to compile renumber regex".to_owned(),
                    },
                );
            },
        };
        let out = renumber_found(&gaps, &found, target_number, max_number);
        proof {
            if no_number_moves(content@, target_number, max_number) {
                let all = regex_captures_iter(renumber_pattern(), content@);
                let fills = renumbered_matches(all, target_number, max_number);
                assert(all == found.deep_view());
                assert forall|j: int| 0 <= j < all.len() implies fills[j] == whole_matches(
                    all,
                )[j] by {
                    assert(shifted_number(
                        match_number(all[j]) as int,
                        target_number as int,
                        max_number as int,
                    ) == match_number(all[j]));
                }
                assert(fills =~= whole_matches(all));
            }
        }
        Ok(string_of(out.as_slice()))
    }

    /// Puts the definition of the fingerprint aperture into the content: as a
    /// line before the definition of the next number, or else before the
    /// first polarity or `G` line after the units line, or else at the end.
    /// Fails only if the pattern of the next definition does not compile.
    pub fn insert_aperture_definition(&self, content: String, hash_aperture: HashAperture) -> (r:
        Result<String, TransJlcError>)
        ensures
            match r {
                Ok(text) => regex_compiles(next_definition_pattern(hash_aperture.target_number))
                    && text@ == inserted(
                    content@,
                    hash_aperture.definition@,
                    hash_aperture.target_number,
                ),
                Err(e) => !regex_compiles(next_definition_pattern(hash_aperture.target_number))
                    && is_hash_error(e),
            },
    {
        let mut pattern: Vec<char> = Vec::new();
        append_str(&mut pattern, "(?m)^%ADD");
        push_decimal(&mut pattern, hash_aperture.target_number as u64 + 1);
        append_str(&mut pattern, "(\\D)");
        let pattern_text = string_of(pattern.as_slice());
        let gaps = match split(pattern_text.as_str(), content.as_str()) {
            Some(gaps) => gaps,
            None => {
                return Err(
                    TransJlcError::HashApertureError {
                        reason: "Failed to compile next aperture regex".to_owned(),
                    },
                );
            },
        };
        let body = chars_of(content.as_str());
        let definition = chars_of(hash_aperture.definition.as_str());
        if gaps.len() > 1 {
            let ghost fills = whole_matches(
                regex_captures_iter(next_definition_pattern(hash_aperture.target_number), content@),
            );
            let head = chars_of(gaps[0].as_str());
            proof {
                assert(gaps.deep_view()[0] == gaps@[0]@);
                lemma_weave_begins(gaps.deep_view(), fills, fills.len() as int);
            }
            let out = insert_line_at(body.as_slice(), head.len(), definition.as_slice());
            Ok(string_of(out.as_slice()))
        } else {
            let out = insert_at_anchor(body.as_slice(), definition.as_slice());
            Ok(string_of(out.as_slice()))
        }
    }

    /// Makes room for the fingerprint aperture, then puts its definition in.
    pub fn insert_hash_aperture(
        &self,
        content: String,
        hash_aperture: HashAperture,
        aperture_info: &ApertureInfo,
    ) -> (r: Result<String, TransJlcError>)
        ensures
            match r {
                Ok(text) => {
                    &&& regex_compiles(renumber_pattern())
                    &&& regex_compiles(next_definition_pattern(hash_aperture.target_number))
                    &&& text@ == inserted(
                        renumbered(
                            content@,
                            hash_aperture.target_number,
                            aperture_info.max_number,
                        ),
                        hash_aperture.definition@,
                        hash_aperture.target_number,
                    )
                },
                Err(e) => !(regex_compiles(renumber_pattern()) && regex_compiles(
                    next_definition_pattern(hash_aperture.target_number),
                )) && is_hash_error(e),
            },
    {
        match self.renumber_apertures(
            content,
            hash_aperture.target_number,
            aperture_info.max_number,
        ) {
            Ok(renumbered_content) => self.insert_aperture_definition(
                renumbered_content,
                hash_aperture,
            ),
            Err(e) => Err(e),
        }
    }
}

/// Whether content gets no fingerprint under the settings: they leave it
/// out, or the content has more bytes than they allow.
pub open spec fn skips_fingerprint(settings: GerberProcessor, content: Seq<char>) -> bool {
    settings.ignore_hash || encode_utf8(content).len() > settings.max_hash_file_size
}

/// Whether the patterns compile that fingerprinting the content uses.
pub open spec fn fingerprint_patterns_compile(content: Seq<char>, slot_draw: int) -> bool {
    let table = aperture_table(content);
    &&& regex_compiles(definition_pattern())
    &&& regex_compiles(macro_pattern())
    &&& table.numbers.len() > 0 ==> regex_compiles(size_pattern())
    &&& regex_compiles(renumber_pattern())
    &&& regex_compiles(next_definition_pattern(target_number(table, slot_draw)))
}

/// Whether an error is one that the transformation fails with: the error of
/// the conversion where the pattern of a select code is needed and does not
/// compile, and the error of the fingerprinting otherwise.
pub open spec fn error_fits(e: TransJlcError, is_kicad: bool) -> bool {
    if is_kicad && !regex_compiles(select_pattern()) {
        is_format_error(e)
    } else {
        is_hash_error(e)
    }
}

/// Whether every pattern compiles that the transformation may use, whatever
/// the content and the draws.
pub open spec fn all_patterns_compile() -> bool {
    &&& regex_compiles(select_pattern())
    &&& regex_compiles(definition_pattern())
    &&& regex_compiles(macro_pattern())
    &&& regex_compiles(size_pattern())
    &&& regex_compiles(renumber_pattern())
    &&& forall|target: u32| regex_compiles(#[trigger] next_definition_pattern(target))
}

/// With every pattern compiled, the transformation has a result.
pub proof fn lemma_transformation_succeeds(
    settings: GerberProcessor,
    content: Seq<char>,
    is_kicad: bool,
    timestamp: Seq<char>,
    slot_draw: int,
    size_draw: int,
)
    requires
        all_patterns_compile(),
    ensures
        transformed(settings, content, is_kicad, timestamp, slot_draw, size_draw) is Some,
        fingerprint_step(settings, content, slot_draw, size_draw) is Some,
{
    let headed = with_header(content, timestamp);
    let staged = if is_kicad {
        prefixed(headed)
    } else {
        headed
    };
    assert(regex_compiles(
        next_definition_pattern(target_number(aperture_table(staged), slot_draw)),
    ));
    assert(regex_compiles(
        next_definition_pattern(target_number(aperture_table(content), slot_draw)),
    ));
}

/// The content with its fingerprint aperture: the definitions are read, the
/// aperture is made from the draws and the digest of the content, room is
/// made at its number and its definition is put in.
pub open spec fn fingerprinted(
    content: Seq<char>,
    imported: bool,
    slot_draw: int,
    size_draw: int,
) -> Seq<char> {
    let table = aperture_table(content);
    let target = target_number(table, slot_draw);
    let size = fingerprint_size(size_draw, hash_number(content, imported));
    inserted(
        renumbered(content, target, MAX_APERTURE_NUMBER),
        fingerprint_definition(table, slot_draw, size),
        target,
    )
}

/// What the fingerprinting step makes of content, or `None` where a pattern
/// that it uses does not compile.
pub open spec fn fingerprint_step(
    settings: GerberProcessor,
    content: Seq<char>,
    slot_draw: int,
    size_draw: int,
) -> Option<Seq<char>> {
    if skips_fingerprint(settings, content) {
        Some(content)
    } else if fingerprint_patterns_compile(content, slot_draw) {
        Some(fingerprinted(content, settings.is_imported_pcb_doc, slot_draw, size_draw))
    } else {
        None
    }
}

/// What the whole transformation makes of content, or `None` where a pattern
/// that it uses does not compile: the header goes on top, the select codes
/// get their prefix where the source leaves it out, and the fingerprint is
/// added.
pub open spec fn transformed(
    settings: GerberProcessor,
    content: Seq<char>,
    is_kicad: bool,
    timestamp: Seq<char>,
    slot_draw: int,
    size_draw: int,
) -> Option<Seq<char>> {
    let headed = with_header(content, timestamp);
    if !is_kicad {
        fingerprint_step(settings, headed, slot_draw, size_draw)
    } else if regex_compiles(select_pattern()) {
        fingerprint_step(settings, prefixed(headed), slot_draw, size_draw)
    } else {
        None
    }
}

/// When room is made at `target`, two different numbers stay different,
/// unless one is the largest number and the other the one before it. No
/// number moves by more than one, and none moves down.
pub proof fn lemma_renumbering_keeps_apart(a: int, b: int, target: int, max: int)
    requires
        a != b,
        !(a == max - 1 && b == max && a >= target),
        !(b == max - 1 && a == max && b >= target),
    ensures
        shifted_number(a, target, max) != shifted_number(b, target, max),
        a <= shifted_number(a, target, max) <= a + 1,
        a < b ==> shifted_number(a, target, max) < shifted_number(b, target, max),
{
}

/// When room is made at `target`, no number lands on `target` itself, unless
/// `target` is the largest number: the fingerprint aperture gets a number
/// that nothing else bears.
pub proof fn lemma_renumbering_frees_target(n: int, target: int, max: int)
    requires
        target != max,
    ensures
        shifted_number(n, target, max) != target,
{
}

/// The number that a renumbered line bears is the shifted number of the one
/// it bore.
pub proof fn lemma_renumbered_match_number(groups: Seq<Option<Seq<char>>>, target: u32, max: u32)
    ensures
        renumbered_match(groups, target, max) == if shifted_number(
            match_number(groups) as int,
            target as int,
            max as int,
        ) == match_number(groups) {
            group_text(groups, 0)
        } else {
            group_text(groups, 1) + decimal(
                shifted_number(match_number(groups) as int, target as int, max as int) as nat,
            ) + group_text(groups, 3)
        },
{
}

/// Two numbered lines of content that bear different numbers bear different
/// numbers once room is made, unless one bears the largest number and the
/// other the one before it; and none of them bears the number of the
/// fingerprint aperture, unless that is the largest.
pub proof fn lemma_renumbered_lines_stay_apart(
    found: Seq<Seq<Option<Seq<char>>>>,
    target: u32,
    max: u32,
    i: int,
    j: int,
)
    requires
        0 <= i < found.len(),
        0 <= j < found.len(),
        match_number(found[i]) != match_number(found[j]),
        !(match_number(found[i]) == max - 1 && match_number(found[j]) == max && match_number(
            found[i],
        ) >= target),
        !(match_number(found[j]) == max - 1 && match_number(found[i]) == max && match_number(
            found[j],
        ) >= target),
    ensures
        renumbered_matches(found, target, max).len() == found.len(),
        shifted_number(match_number(found[i]) as int, target as int, max as int)
            != shifted_number(match_number(found[j]) as int, target as int, max as int),
        target != max ==> shifted_number(match_number(found[i]) as int, target as int, max as int)
            != target,
{
    lemma_renumbering_keeps_apart(
        match_number(found[i]) as int,
        match_number(found[j]) as int,
        target as int,
        max as int,
    );
}

impl GerberProcessor {
    /// Tells whether content gets no fingerprint under the settings, so that
    /// a caller can say so.
    pub fn skips_hash(&self, content: &str) -> (r: bool)
        ensures
            r == skips_fingerprint(*self, content@),
    {
        self.ignore_hash || content.as_bytes().len() > self.max_hash_file_size
    }

    /// Adds the fingerprint aperture that the two draws and the digest of the
    /// content give. Content that the settings exempt comes back as it is.
    /// Fails only if a pattern that the step uses does not compile.
    pub fn add_hash_aperture_with(&self, content: String, slot_draw: u32, size_draw: u32) -> (r:
        Result<String, TransJlcError>)
        requires
            slot_draw < 5,
            size_draw < 100,
        ensures
            match r {
                Ok(text) => fingerprint_step(*self, content@, slot_draw as int, size_draw as int)
                    == Some(text@),
                Err(e) => fingerprint_step(*self, content@, slot_draw as int, size_draw as int)
                    is None && is_hash_error(e),
            },
    {
        if self.ignore_hash || content.as_str().as_bytes().len() > self.max_hash_file_size {
            return Ok(content);
        }
        let aperture_info = match self.analyze_apertures(content.as_str()) {
            Ok(info) => info,
            Err(e) => {
                return Err(e);
            },
        };
        let hash_aperture = match self.hash_aperture_with(
            content.as_str(),
            &aperture_info,
            slot_draw,
            size_draw,
        ) {
            Ok(aperture) => aperture,
            Err(e) => {
                return Err(e);
            },
        };
        self.insert_hash_aperture(content, hash_aperture, &aperture_info)
    }

    /// Adds the fingerprint aperture, with a slot and a base size drawn at
    /// random. Content that the settings exempt comes back as it is.
    pub fn add_hash_aperture_to_gerber(&self, content: String) -> (r: Result<String, TransJlcError>)
        ensures
            skips_fingerprint(*self, content@) ==> r == Ok::<String, TransJlcError>(content),
            match r {
                Ok(text) => exists|slot_draw: int, size_draw: int|
                    0 <= slot_draw < 5 && 0 <= size_draw < 100 && #[trigger] fingerprint_step(
                        *self,
                        content@,
                        slot_draw,
                        size_draw,
                    ) == Some(text@),
                Err(e) => is_hash_error(e) && exists|slot_draw: int, size_draw: int|
                    0 <= slot_draw < 5 && 0 <= size_draw < 100 && #[trigger] fingerprint_step(
                        *self,
                        content@,
                        slot_draw,
                        size_draw,
                    ) is None,
            },
            all_patterns_compile() ==> r is Ok,
    {
        if self.ignore_hash || content.as_str().as_bytes().len() > self.max_hash_file_size {
            assert(fingerprint_step(*self, content@, 0, 0) == Some(content@));
            return Ok(content);
        }
        let slot_draw = random_below(5);
        let size_draw = random_below(100);
        proof {
            if all_patterns_compile() {
                lemma_transformation_succeeds(
                    *self,
                    content@,
                    false,
                    Seq::empty(),
                    slot_draw as int,
                    size_draw as int,
                );
            }
        }
        self.add_hash_aperture_with(content, slot_draw, size_draw)
    }

    /// Transforms content for the given timestamp and draws: header, prefix
    /// on the select codes if `is_kicad`, fingerprint aperture. Fails only if
    /// a pattern that a step uses does not compile.
    pub fn transform(
        &self,
        content: String,
        is_kicad: bool,
        timestamp: &str,
        slot_draw: u32,
        size_draw: u32,
    ) -> (r: Result<String, TransJlcError>)
        requires
            slot_draw < 5,
            size_draw < 100,
        ensures
            match r {
                Ok(text) => transformed(
                    *self,
                    content@,
                    is_kicad,
                    timestamp@,
                    slot_draw as int,
                    size_draw as int,
                ) == Some(text@),
                Err(e) => transformed(
                    *self,
                    content@,
                    is_kicad,
                    timestamp@,
                    slot_draw as int,
                    size_draw as int,
                ) is None && error_fits(e, is_kicad),
            },
    {
        let headed = header_with(content.as_str(), timestamp);
        let staged = if is_kicad {
            match self.convert_kicad_aperture_format(headed) {
                Ok(text) => text,
                Err(e) => {
                    return Err(e);
                },
            }
        } else {
            headed
        };
        self.add_hash_aperture_with(staged, slot_draw, size_draw)
    }

    /// Transforms content with the present local time in the header and with
    /// a slot and a base size drawn at random for the fingerprint.
    pub fn process_gerber_content(&self, content: String, is_kicad: bool) -> (r: Result<
        String,
        TransJlcError,
    >)
        ensures
            match r {
                Ok(text) => exists|timestamp: Seq<char>, slot_draw: int, size_draw: int|
                    0 <= slot_draw < 5 && 0 <= size_draw < 100 && #[trigger] transformed(
                        *self,
                        content@,
                        is_kicad,
                        timestamp,
                        slot_draw,
                        size_draw,
                    ) == Some(text@),
                Err(e) => error_fits(e, is_kicad) && exists|
                    timestamp: Seq<char>,
                    slot_draw: int,
                    size_draw: int,
                |
                    0 <= slot_draw < 5 && 0 <= size_draw < 100 && #[trigger] transformed(
                        *self,
                        content@,
                        is_kicad,
                        timestamp,
                        slot_draw,
                        size_draw,
                    ) is None,
            },
            all_patterns_compile() ==> r is Ok,
    {
        let now = local_timestamp();
        let slot_draw = random_below(5);
        let size_draw = random_below(100);
        proof {
            if all_patterns_compile() {
                lemma_transformation_succeeds(
                    *self,
                    content@,
                    is_kicad,
                    now@,
                    slot_draw as int,
                    size_draw as int,
                );
            }
        }
        self.transform(content, is_kicad, now.as_str(), slot_draw, size_draw)
    }
}

/// Content in which every line holds an aperture definition or a prefixed
/// select code comes through the prefixing as it is.
pub proof fn lemma_prefixed_keeps_settled_content(content: Seq<char>)
    requires
        forall|i: int|
            0 <= i < split_on(content, '\n').len() ==> is_settled_line(
                #[trigger] split_on(content, '\n')[i],
            ),
    ensures
        prefixed(content) == content,
{
    let lines = split_on(content, '\n');
    assert(prefixed_lines(lines) =~= lines);
    crate::text::lemma_join_split(content, '\n');
    reveal_strlit("\n");
    assert("\n"@ =~= seq!['\n']);
}

/// Whether a carriage return stands directly before a line feed somewhere
/// in the text.
pub open spec fn has_crlf(s: Seq<char>) -> bool {
    exists|i: int| 0 <= i && i + 1 < s.len() && #[trigger] s[i] == '\r' && s[i + 1] == '\n'
}

/// Text without a carriage return before a line feed is left as it is.
pub proof fn lemma_normalized_keeps_clean_text(s: Seq<char>)
    requires
        !has_crlf(s),
    ensures
        normalized(s) == s,
    decreases s.len(),
{
    if s.len() >= 1 {
        if s.len() >= 2 && s[0] == '\r' && s[1] == '\n' {
            assert(has_crlf(s));
        }
        let rest = s.skip(1);
        if has_crlf(rest) {
            let i = choose|i: int|
                0 <= i && i + 1 < rest.len() && #[trigger] rest[i] == '\r' && rest[i + 1] == '\n';
            assert(s[i + 1] == '\r' && s[i + 2] == '\n');
        }
        lemma_normalized_keeps_clean_text(rest);
        assert(seq![s[0]] + rest =~= s);
    } else {
        assert(s =~= Seq::<char>::empty());
    }
}

/// The header is added anew on every run: content that went through once
/// gets a second header before the first, and is otherwise kept as it came
/// out, provided that it came out without a carriage return before a line
/// feed.
pub proof fn lemma_header_is_added_anew(content: Seq<char>, first: Seq<char>, second: Seq<char>)
    requires
        !has_crlf(with_header(content, first)),
    ensures
        with_header(with_header(content, first), second) == header_text(second) + header_text(
            first,
        ) + normalized(content),
{
    lemma_normalized_keeps_clean_text(with_header(content, first));
    assert(header_text(second) + (header_text(first) + normalized(content)) =~= header_text(second)
        + header_text(first) + normalized(content));
}

} // verus!
