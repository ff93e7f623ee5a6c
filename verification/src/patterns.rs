//! Layer kinds, and the filename rules by which each EDA dialect names them.

use crate::error::TransJlcError;
use crate::regexp::captures;
use crate::regexp::captures_of;
use crate::regexp::group_number;
use crate::regexp::is_match;
use crate::regexp::number_of_group;
use crate::regexp::regex_compiles;
use crate::regexp::regex_is_match;
use crate::text::append_str;
use crate::text::chars_of;
use crate::text::decimal;
use crate::text::ends_with;
use crate::text::has_suffix;
use crate::text::lowercase;
use crate::text::lowercase_of;
use crate::text::parse_u32;
use crate::text::parsed_u32;
use crate::text::push_decimal;
use crate::text::string_of;
use vstd::prelude::*;

verus! {

/// A logical layer of a board.
#[derive(Debug, Clone, Copy, PartialEq, Eq, Hash, Structural)]
pub enum LayerType {
    NpthThrough,
    PthThrough,
    PthThroughVia,
    BottomSilkscreen,
    BottomSoldermask,
    BottomPasteMask,
    BottomCopper,
    TopSilkscreen,
    TopSoldermask,
    TopPasteMask,
    TopCopper,
    BoardOutline,
    /// An inner copper layer, with its number, which is 1 or more for every
    /// layer that a file is classified as. As the key of a dialect's rules
    /// the number is of no account, and 0 stands there.
    InnerLayer(u32),
    Other,
}

impl LayerType {
    /// Whether this is one of the three drill layers.
    pub open spec fn is_drill(self) -> bool {
        self == LayerType::NpthThrough || self == LayerType::PthThrough || self
            == LayerType::PthThroughVia
    }

    /// Whether this is an inner copper layer, whatever its number.
    pub open spec fn is_inner(self) -> bool {
        self is InnerLayer
    }

    /// Whether this is a layer of a board: an inner layer has a number of 1
    /// or more.
    pub open spec fn is_layer(self) -> bool {
        self is InnerLayer ==> self->InnerLayer_0 >= 1
    }

    /// The position of the variant in the closed set of kinds, in which all
    /// inner layers are one.
    pub open spec fn variant(self) -> int {
        match self {
            LayerType::NpthThrough => 0,
            LayerType::PthThrough => 1,
            LayerType::PthThroughVia => 2,
            LayerType::BottomSilkscreen => 3,
            LayerType::BottomSoldermask => 4,
            LayerType::BottomPasteMask => 5,
            LayerType::BottomCopper => 6,
            LayerType::TopSilkscreen => 7,
            LayerType::TopSoldermask => 8,
            LayerType::TopPasteMask => 9,
            LayerType::TopCopper => 10,
            LayerType::BoardOutline => 11,
            LayerType::InnerLayer(_) => 12,
            LayerType::Other => 13,
        }
    }

    /// The canonical output filename of the layer.
    pub open spec fn jlc_filename(self) -> Seq<char> {
        match self {
            LayerType::NpthThrough => "Drill_NPTH_Through.DRL"@,
            LayerType::PthThrough => "Drill_PTH_Through.DRL"@,
            LayerType::PthThroughVia => "Drill_PTH_Through_Via.DRL"@,
            LayerType::BottomSilkscreen => "Gerber_BottomSilkscreenLayer.GBO"@,
            LayerType::BottomSoldermask => "Gerber_BottomSolderMaskLayer.GBS"@,
            LayerType::BottomPasteMask => "Gerber_BottomPasteMaskLayer.GBP"@,
            LayerType::BottomCopper => "Gerber_BottomLayer.GBL"@,
            LayerType::TopSilkscreen => "Gerber_TopSilkscreenLayer.GTO"@,
            LayerType::TopSoldermask => "Gerber_TopSolderMaskLayer.GTS"@,
            LayerType::TopPasteMask => "Gerber_TopPasteMaskLayer.GTP"@,
            LayerType::TopCopper => "Gerber_TopLayer.GTL"@,
            LayerType::BoardOutline => "Gerber_BoardOutlineLayer.GKO"@,
            LayerType::InnerLayer(n) => "Gerber_InnerLayer"@ + decimal(n as nat) + ".G"@ + decimal(
                n as nat,
            ),
            LayerType::Other => "Unknown"@,
        }
    }

    /// Tells whether this is one of the three drill layers.
    pub fn is_drill_layer(&self) -> (r: bool)
        ensures
            r == self.is_drill(),
    {
        match self {
            LayerType::NpthThrough => true,
            LayerType::PthThrough => true,
            LayerType::PthThroughVia => true,
            _ => false,
        }
    }

    /// The position of the variant in the closed set of kinds.
    pub fn variant_index(&self) -> (r: usize)
        ensures
            r == self.variant(),
            r < 14,
    {
        match self {
            LayerType::NpthThrough => 0,
            LayerType::PthThrough => 1,
            LayerType::PthThroughVia => 2,
            LayerType::BottomSilkscreen => 3,
            LayerType::BottomSoldermask => 4,
            LayerType::BottomPasteMask => 5,
            LayerType::BottomCopper => 6,
            LayerType::TopSilkscreen => 7,
            LayerType::TopSoldermask => 8,
            LayerType::TopPasteMask => 9,
            LayerType::TopCopper => 10,
            LayerType::BoardOutline => 11,
            LayerType::InnerLayer(_) => 12,
            LayerType::Other => 13,
        }
    }

    /// The canonical output filename of the layer.
    pub fn to_jlc_filename(&self) -> (r: String)
        ensures
            r@ == self.jlc_filename(),
    {
        let mut out: Vec<char> = Vec::new();
        match self {
            LayerType::NpthThrough => append_str(&mut out, "Drill_NPTH_Through.DRL"),
            LayerType::PthThrough => append_str(&mut out, "Drill_PTH_Through.DRL"),
            LayerType::PthThroughVia => append_str(&mut out, "Drill_PTH_Through_Via.DRL"),
            LayerType::BottomSilkscreen => append_str(&mut out, "Gerber_BottomSilkscreenLayer.GBO"),
            LayerType::BottomSoldermask => append_str(&mut out, "Gerber_BottomSolderMaskLayer.GBS"),
            LayerType::BottomPasteMask => append_str(&mut out, "Gerber_BottomPasteMaskLayer.GBP"),
            LayerType::BottomCopper => append_str(&mut out, "Gerber_BottomLayer.GBL"),
            LayerType::TopSilkscreen => append_str(&mut out, "Gerber_TopSilkscreenLayer.GTO"),
            LayerType::TopSoldermask => append_str(&mut out, "Gerber_TopSolderMaskLayer.GTS"),
            LayerType::TopPasteMask => append_str(&mut out, "Gerber_TopPasteMaskLayer.GTP"),
            LayerType::TopCopper => append_str(&mut out, "Gerber_TopLayer.GTL"),
            LayerType::BoardOutline => append_str(&mut out, "Gerber_BoardOutlineLayer.GKO"),
            LayerType::InnerLayer(n) => {
                append_str(&mut out, "Gerber_InnerLayer");
                push_decimal(&mut out, *n as u64);
                append_str(&mut out, ".G");
                push_decimal(&mut out, *n as u64);
            },
            LayerType::Other => append_str(&mut out, "Unknown"),
        }
        string_of(out.as_slice())
    }
}

/// The rules of one layer kind, in the order in which they were added.
#[derive(Debug, Clone)]
pub struct RuleList {
    pub kind: LayerType,
    pub rules: Vec<String>,
}

impl View for RuleList {
    type V = (LayerType, Seq<Seq<char>>);

    open spec fn view(&self) -> (LayerType, Seq<Seq<char>>) {
        (self.kind, self.rules.deep_view())
    }
}

/// What a dialect is in contracts: its name, and for each layer kind that has
/// rules the list of them, the kinds in the order in which each was first
/// given a rule.
pub struct PatternTable {
    pub name: Seq<char>,
    pub entries: Seq<(LayerType, Seq<Seq<char>>)>,
}

/// The filename rules of one EDA dialect.
#[derive(Debug, Clone)]
pub struct EdaPatterns {
    pub name: String,
    patterns: Vec<RuleList>,
}

/// The views of a run of rule lists.
pub open spec fn entries_of(lists: Seq<RuleList>) -> Seq<(LayerType, Seq<Seq<char>>)> {
    Seq::new(lists.len(), |i: int| lists[i]@)
}

/// The pattern that finds the first run of digits in a name.
pub open spec fn digits_pattern() -> Seq<char> {
    "(\\d+)"@
}

/// The ending of a drill file's name, in lower case.
pub open spec fn drill_suffix() -> Seq<char> {
    ".drl"@
}

/// Whether a name ends in the drill-file extension, in any case.
pub open spec fn is_drill_name(name: Seq<char>) -> bool {
    has_suffix(lowercase_of(name), drill_suffix())
}

/// Whether a rule compiles and matches the name.
pub open spec fn rule_hits(rule: Seq<char>, name: Seq<char>) -> bool {
    regex_compiles(rule) && regex_is_match(rule, name)
}

/// The position of the first of `rules` that hits the name, or their number.
pub open spec fn first_hit(rules: Seq<Seq<char>>, name: Seq<char>) -> int
    decreases rules.len(),
{
    if rules.len() == 0 {
        0
    } else if rule_hits(rules[0], name) {
        0
    } else {
        1 + first_hit(rules.skip(1), name)
    }
}

/// Whether one of `rules` hits the name.
pub open spec fn any_hit(rules: Seq<Seq<char>>, name: Seq<char>) -> bool {
    exists|i: int| 0 <= i < rules.len() && rule_hits(#[trigger] rules[i], name)
}

/// The position of the first entry for `kind`, or the number of entries.
pub open spec fn find_kind(entries: Seq<(LayerType, Seq<Seq<char>>)>, kind: LayerType) -> int
    decreases entries.len(),
{
    if entries.len() == 0 {
        0
    } else if entries[0].0 == kind {
        0
    } else {
        1 + find_kind(entries.skip(1), kind)
    }
}

/// The rules given for `kind`; none if it has no entry.
pub open spec fn rules_for(entries: Seq<(LayerType, Seq<Seq<char>>)>, kind: LayerType) -> Seq<
    Seq<char>,
> {
    let k = find_kind(entries, kind);
    if 0 <= k < entries.len() {
        entries[k].1
    } else {
        Seq::empty()
    }
}

/// The entries once `rule` is added for `kind`: at the end of the kind's
/// rules, or as a new last entry where the kind had none.
pub open spec fn with_rule(
    entries: Seq<(LayerType, Seq<Seq<char>>)>,
    kind: LayerType,
    rule: Seq<char>,
) -> Seq<(LayerType, Seq<Seq<char>>)> {
    let k = find_kind(entries, kind);
    if 0 <= k < entries.len() {
        entries.update(k, (kind, entries[k].1.push(rule)))
    } else {
        entries.push((kind, seq![rule]))
    }
}

/// Whether no kind has two entries.
pub open spec fn distinct_kinds(entries: Seq<(LayerType, Seq<Seq<char>>)>) -> bool {
    forall|i: int, j: int|
        0 <= i < j < entries.len() ==> (#[trigger] entries[i]).0 != (#[trigger] entries[j]).0
}

/// The first number among the groups from `from` on: the first group that
/// took part in the match and parses as a `u32`.
pub open spec fn first_number(groups: Seq<Option<Seq<char>>>, from: int) -> Option<u32>
    decreases groups.len() - from,
{
    if from < 0 || from >= groups.len() {
        None
    } else if groups[from] is Some && parsed_u32(groups[from]->0) is Some {
        parsed_u32(groups[from]->0)
    } else {
        first_number(groups, from + 1)
    }
}

/// The inner layer number that a name carries under the rule that matched
/// it: the first capture group of the rule that parses as a number, else the
/// first run of digits in the name, if that parses.
pub open spec fn inner_number(rule: Seq<char>, name: Seq<char>) -> Option<u32> {
    let own = match captures_of(rule, name) {
        Some(groups) => first_number(groups, 1),
        None => None,
    };
    if own is Some {
        own
    } else {
        match captures_of(digits_pattern(), name) {
            Some(groups) => group_number(groups),
            None => None,
        }
    }
}

/// The inner layer that a name stands for under the rule that matched it:
/// the layer of the number that the name carries, or none where it carries
/// no number or the number 0, which no layer has.
pub open spec fn inner_layer_of(rule: Seq<char>, name: Seq<char>) -> Option<LayerType> {
    match inner_number(rule, name) {
        Some(n) => if n >= 1 {
            Some(LayerType::InnerLayer(n))
        } else {
            None
        },
        None => None,
    }
}

/// What the entries after the drill layers make of a name: the first entry,
/// in order, that is no drill layer and has a rule that hits decides. An
/// inner layer takes its number from the name, and without a number of 1 or
/// more the name stays unclassified.
pub open spec fn match_plain(entries: Seq<(LayerType, Seq<Seq<char>>)>, name: Seq<char>) -> Option<
    LayerType,
>
    decreases entries.len(),
{
    if entries.len() == 0 {
        None
    } else {
        let kind = entries[0].0;
        let rules = entries[0].1;
        let k = first_hit(rules, name);
        if !kind.is_drill() && 0 <= k < rules.len() {
            if kind.is_inner() {
                inner_layer_of(rules[k], name)
            } else {
                Some(kind)
            }
        } else {
            match_plain(entries.skip(1), name)
        }
    }
}

/// The layer that a dialect's entries give a filename. A drill file's name is
/// first held against the rules for non-plated holes, then against those for
/// plated holes, then against those for plated vias. Any name that those did
/// not settle goes through the other entries in order.
pub open spec fn match_name(entries: Seq<(LayerType, Seq<Seq<char>>)>, name: Seq<char>) -> Option<
    LayerType,
> {
    if is_drill_name(name) && any_hit(rules_for(entries, LayerType::NpthThrough), name) {
        Some(LayerType::NpthThrough)
    } else if is_drill_name(name) && any_hit(rules_for(entries, LayerType::PthThrough), name) {
        Some(LayerType::PthThrough)
    } else if is_drill_name(name) && any_hit(rules_for(entries, LayerType::PthThroughVia), name) {
        Some(LayerType::PthThroughVia)
    } else {
        match_plain(entries, name)
    }
}

/// `first_hit` is within bounds, nothing before it hits, and it hits unless
/// it is the length.
pub proof fn lemma_first_hit(rules: Seq<Seq<char>>, name: Seq<char>)
    ensures
        0 <= first_hit(rules, name) <= rules.len(),
        forall|i: int| 0 <= i < first_hit(rules, name) ==> !rule_hits(#[trigger] rules[i], name),
        first_hit(rules, name) < rules.len() ==> rule_hits(rules[first_hit(rules, name)], name),
        first_hit(rules, name) < rules.len() <==> any_hit(rules, name),
    decreases rules.len(),
{
    if rules.len() > 0 && !rule_hits(rules[0], name) {
        let rest = rules.skip(1);
        lemma_first_hit(rest, name);
        assert forall|i: int| 0 <= i < first_hit(rules, name) implies !rule_hits(
            #[trigger] rules[i],
            name,
        ) by {
            if i > 0 {
                assert(rules[i] == rest[i - 1]);
            }
        }
        if first_hit(rest, name) < rest.len() {
            assert(rules[first_hit(rules, name)] == rest[first_hit(rest, name)]);
        }
        if any_hit(rules, name) {
            let i = choose|i: int| 0 <= i < rules.len() && rule_hits(#[trigger] rules[i], name);
            assert(rules[i] == rest[i - 1]);
        }
    }
}

/// `find_kind` is within bounds, no entry before it is of the kind, and the
/// entry at it is, unless it is the length.
pub proof fn lemma_find_kind(entries: Seq<(LayerType, Seq<Seq<char>>)>, kind: LayerType, k: int)
    requires
        0 <= k <= entries.len(),
        forall|i: int| 0 <= i < k ==> (#[trigger] entries[i]).0 != kind,
        k < entries.len() ==> entries[k].0 == kind,
    ensures
        find_kind(entries, kind) == k,
    decreases entries.len(),
{
    if entries.len() > 0 && entries[0].0 != kind {
        let rest = entries.skip(1);
        assert forall|i: int| 0 <= i < k - 1 implies (#[trigger] rest[i]).0 != kind by {
            assert(rest[i] == entries[i + 1]);
        }
        lemma_find_kind(rest, kind, k - 1);
    }
}

/// The first number among the groups of a match from `from` on: the first
/// group that took part in the match and parses as a number.
pub fn first_number_in(groups: &Vec<Option<String>>, from: usize) -> (r: Option<u32>)
    ensures
        r == first_number(groups.deep_view(), from as int),
{
    let ghost all = groups.deep_view();
    let mut i: usize = from;
    while i < groups.len()
        invariant
            from <= i,
            all == groups.deep_view(),
            first_number(all, from as int) == first_number(all, i as int),
        decreases groups@.len() - i,
    {
        assert(all[i as int] == groups@[i as int].deep_view());
        if let Some(text) = &groups[i] {
            let digits = chars_of(text.as_str());
            if let Some(n) = parse_u32(digits.as_slice()) {
                return Some(n);
            }
        }
        i += 1;
    }
    None
}

/// The inner layer of a number found in a name: none for no number and for
/// the number 0, which no layer has.
pub fn inner_layer_for(number: Option<u32>) -> (r: Option<LayerType>)
    ensures
        r == match number {
            Some(n) => if n >= 1 {
                Some(LayerType::InnerLayer(n))
            } else {
                None
            },
            None => None,
        },
        r is Some ==> r->0.is_layer(),
{
    match number {
        Some(n) => if n >= 1 {
            Some(LayerType::InnerLayer(n))
        } else {
            None
        },
        None => None,
    }
}

/// A name whose rule captures the numeral of a number of 1 or more as its
/// first group stands for the inner layer of that number. The canonical
/// filename of an inner layer is written with that numeral, so the layer
/// comes back from it wherever the rule that matches it captures the numeral.
pub proof fn lemma_captured_numeral_gives_layer(
    rule: Seq<char>,
    name: Seq<char>,
    groups: Seq<Option<Seq<char>>>,
    n: u32,
)
    requires
        n >= 1,
        captures_of(rule, name) == Some(groups),
        groups.len() > 1,
        groups[1] == Some(decimal(n as nat)),
    ensures
        inner_number(rule, name) == Some(n),
        inner_layer_of(rule, name) == Some(LayerType::InnerLayer(n)),
{
    crate::text::lemma_decimal_parses_back(n);
}

/// A name is never classified as an inner layer of number 0: every inner
/// layer that a dialect makes out has a number of 1 or more.
pub proof fn lemma_classified_inner_is_numbered(
    entries: Seq<(LayerType, Seq<Seq<char>>)>,
    name: Seq<char>,
)
    ensures
        match_plain(entries, name) is Some ==> match_plain(entries, name)->0.is_layer(),
        match_name(entries, name) is Some ==> match_name(entries, name)->0.is_layer(),
    decreases entries.len(),
{
    if entries.len() > 0 {
        lemma_classified_inner_is_numbered(entries.skip(1), name);
    }
}

impl View for EdaPatterns {
    type V = PatternTable;

    closed spec fn view(&self) -> PatternTable {
        PatternTable { name: self.name@, entries: entries_of(self.patterns@) }
    }
}

impl EdaPatterns {
    /// Whether no layer kind has two entries.
    pub open spec fn wf(&self) -> bool {
        distinct_kinds(self@.entries)
    }

    /// The name of the dialect.
    pub fn dialect_name(&self) -> (r: &str)
        ensures
            r@ == self@.name,
    {
        self.name.as_str()
    }

    /// A dialect of the given name, without rules.
    pub fn new(name: String) -> (r: Self)
        ensures
            r@.name == name@,
            r@.entries == Seq::<(LayerType, Seq<Seq<char>>)>::empty(),
            r.wf(),
    {
        let r = Self { name, patterns: Vec::new() };
        assert(r@.entries =~= Seq::<(LayerType, Seq<Seq<char>>)>::empty());
        r
    }

    /// Adds a rule for a layer kind, after the rules that the kind has.
    pub fn add_pattern(&mut self, layer_type: LayerType, pattern: String)
        ensures
            final(self)@.name == old(self)@.name,
            final(self)@.entries == with_rule(old(self)@.entries, layer_type, pattern@),
            old(self).wf() ==> final(self).wf(),
    {
        let ghost before = self@.entries;
        let mut k: usize = 0;
        while k < self.patterns.len() && self.patterns[k].kind != layer_type
            invariant
                k <= self.patterns@.len(),
                *self == *old(self),
                forall|i: int| 0 <= i < k ==> (#[trigger] self.patterns@[i]).kind != layer_type,
            decreases self.patterns@.len() - k,
        {
            k += 1;
        }
        proof {
            assert forall|i: int| 0 <= i < k implies (#[trigger] before[i]).0 != layer_type by {
                assert(before[i] == self.patterns@[i]@);
            }
            if k < before.len() {
                assert(before[k as int] == self.patterns@[k as int]@);
            }
            lemma_find_kind(before, layer_type, k as int);
        }
        if k < self.patterns.len() {
            let ghost lists = self.patterns@;
            let mut list = self.patterns.remove(k);
            let ghost old_rules = list.rules.deep_view();
            list.rules.push(pattern);
            assert(list.rules.deep_view() =~= old_rules.push(pattern@));
            self.patterns.insert(k, list);
            proof {
                let after = with_rule(before, layer_type, pattern@);
                assert(self@.entries.len() == after.len());
                assert forall|i: int| 0 <= i < after.len() implies self@.entries[i] == after[i] by {
                    assert(before[i] == lists[i]@);
                }
                assert(self@.entries =~= after);
            }
        } else {
            let mut rules: Vec<String> = Vec::new();
            rules.push(pattern);
            assert(rules.deep_view() =~= seq![pattern@]);
            self.patterns.push(RuleList { kind: layer_type, rules });
            assert(self@.entries =~= with_rule(before, layer_type, pattern@));
        }
    }

    /// The position of the first of `rules` that compiles and matches
    /// `filename`, or their number.
    fn first_matching_rule(rules: &Vec<String>, filename: &str) -> (k: usize)
        ensures
            k == first_hit(rules.deep_view(), filename@),
            k <= rules@.len(),
    {
        let ghost all = rules.deep_view();
        let mut k: usize = 0;
        assert(all.skip(0) == all);
        while k < rules.len()
            invariant
                k <= rules@.len(),
                all == rules.deep_view(),
                first_hit(all, filename@) == k + first_hit(all.skip(k as int), filename@),
            decreases rules@.len() - k,
        {
            let ghost rest = all.skip(k as int);
            assert(rest[0] == rules@[k as int]@);
            assert(rest.skip(1) == all.skip(k + 1));
            let hit = is_match(rules[k].as_str(), filename);
            if hit == Some(true) {
                return k;
            }
            k += 1;
        }
        k
    }

    /// Whether a rule given for `kind` compiles and matches `filename`.
    fn kind_matches(&self, kind: LayerType, filename: &str) -> (r: bool)
        ensures
            r == any_hit(rules_for(self@.entries, kind), filename@),
    {
        let ghost entries = self@.entries;
        let mut i: usize = 0;
        while i < self.patterns.len()
            invariant
                i <= self.patterns@.len(),
                entries == self@.entries,
                forall|j: int| 0 <= j < i ==> (#[trigger] entries[j]).0 != kind,
            decreases self.patterns@.len() - i,
        {
            if self.patterns[i].kind == kind {
                proof {
                    lemma_find_kind(entries, kind, i as int);
                    lemma_first_hit(entries[i as int].1, filename@);
                }
                let k = Self::first_matching_rule(&self.patterns[i].rules, filename);
                return k < self.patterns[i].rules.len();
            }
            i += 1;
        }
        proof {
            lemma_find_kind(entries, kind, entries.len() as int);
        }
        false
    }

    /// The inner layer number that `filename` carries under the rule that
    /// matched it.
    fn extract_inner_layer_number(filename: &str, rule: &str) -> (r: Option<LayerType>)
        ensures
            r == inner_layer_of(rule@, filename@),
    {
        inner_layer_for(Self::find_inner_number(filename, rule))
    }

    /// The number that `filename` carries under the rule that matched it:
    /// the first group of the rule that parses as a number, else the first
    /// run of digits in the name, if that parses.
    fn find_inner_number(filename: &str, rule: &str) -> (r: Option<u32>)
        ensures
            r == inner_number(rule@, filename@),
    {
        let found = captures(rule, filename);
        if let Some(groups) = found {
            if let Some(n) = first_number_in(&groups, 1) {
                return Some(n);
            }
        }
        let fallback = captures("(\\d+)", filename);
        if let Some(groups) = fallback {
            return number_of_group(&groups);
        }
        None
    }

    /// Classifies a filename. A drill file's name is first held against the
    /// rules for non-plated holes, then against those for plated holes, then
    /// against those for plated vias; what is left goes through the other
    /// kinds in the order in which they were first given a rule.
    #[verifier::loop_isolation(false)]
    pub fn match_filename(&self, filename: &str) -> (r: Option<LayerType>)
        ensures
            r == match_name(self@.entries, filename@),
            r is Some && r->0 is InnerLayer ==> r->0->InnerLayer_0 >= 1,
    {
        proof {
            lemma_classified_inner_is_numbered(self@.entries, filename@);
        }
        let lower = lowercase(filename);
        let lower_chars = chars_of(lower.as_str());
        let suffix = chars_of(".drl");
        if ends_with(lower_chars.as_slice(), suffix.as_slice()) {
            if self.kind_matches(LayerType::NpthThrough, filename) {
                return Some(LayerType::NpthThrough);
            }
            if self.kind_matches(LayerType::PthThrough, filename) {
                return Some(LayerType::PthThrough);
            }
            if self.kind_matches(LayerType::PthThroughVia, filename) {
                return Some(LayerType::PthThroughVia);
            }
        }
        let ghost entries = self@.entries;
        let mut i: usize = 0;
        assert(entries.skip(0) == entries);
        while i < self.patterns.len()
            invariant
                i <= self.patterns@.len(),
                entries == self@.entries,
                match_plain(entries, filename@) == match_plain(entries.skip(i as int), filename@),
            decreases self.patterns@.len() - i,
        {
            let ghost rest = entries.skip(i as int);
            assert(rest[0] == self.patterns@[i as int]@);
            assert(rest.skip(1) == entries.skip(i + 1));
            let list = &self.patterns[i];
            if !list.kind.is_drill_layer() {
                let k = Self::first_matching_rule(&list.rules, filename);
                proof {
                    lemma_first_hit(rest[0].1, filename@);
                }
                if k < list.rules.len() {
                    assert(rest[0].1[k as int] == list.rules@[k as int]@);
                    return match list.kind {
                        LayerType::InnerLayer(_) => Self::extract_inner_layer_number(
                            filename,
                            list.rules[k].as_str(),
                        ),
                        _ => Some(list.kind),
                    };
                }
            }
            i += 1;
        }
        None
    }
}

/// Whether the entries classify `name` as a layer of variant `v`.
pub open spec fn classified_as(
    entries: Seq<(LayerType, Seq<Seq<char>>)>,
    name: Seq<char>,
    v: int,
) -> bool {
    match_name(entries, name) is Some && match_name(entries, name)->0.variant() == v
}

/// The variants of layer kind found among the names: inner layers of any
/// number count as one.
pub open spec fn matched_variants(
    entries: Seq<(LayerType, Seq<Seq<char>>)>,
    names: Seq<Seq<char>>,
) -> Set<int> {
    Set::new(
        |v: int| exists|i: int| 0 <= i < names.len() && classified_as(entries, #[trigger] names[i], v),
    )
}

/// Whether the entries make out at least three different kinds of layer
/// among the names.
pub open spec fn can_handle(entries: Seq<(LayerType, Seq<Seq<char>>)>, names: Seq<Seq<char>>) -> bool {
    matched_variants(entries, names).finite() && matched_variants(entries, names).len() >= 3
}

/// How many of the flags are set.
pub open spec fn count_set(flags: Seq<bool>) -> nat
    decreases flags.len(),
{
    if flags.len() == 0 {
        0
    } else {
        count_set(flags.drop_last()) + if flags.last() {
            1nat
        } else {
            0nat
        }
    }
}

/// The positions at which a flag is set.
pub open spec fn set_positions(flags: Seq<bool>) -> Set<int> {
    Set::new(|v: int| 0 <= v < flags.len() && flags[v])
}

/// There are as many set positions as `count_set` counts.
pub proof fn lemma_count_set(flags: Seq<bool>)
    ensures
        set_positions(flags).finite(),
        set_positions(flags).len() == count_set(flags),
    decreases flags.len(),
{
    if flags.len() == 0 {
        assert(set_positions(flags) =~= Set::<int>::empty());
    } else {
        let shorter = flags.drop_last();
        lemma_count_set(shorter);
        if flags.last() {
            assert(set_positions(flags) =~= set_positions(shorter).insert(flags.len() - 1));
        } else {
            assert(set_positions(flags) =~= set_positions(shorter));
        }
    }
}

/// The entries that a list of rules builds, each rule added in turn.
pub open spec fn entries_from(rules: Seq<(LayerType, Seq<char>)>) -> Seq<
    (LayerType, Seq<Seq<char>>),
>
    decreases rules.len(),
{
    if rules.len() == 0 {
        Seq::empty()
    } else {
        with_rule(entries_from(rules.drop_last()), rules.last().0, rules.last().1)
    }
}

/// The rules of a table as they stand in contracts.
pub open spec fn rules_view(rules: Seq<(LayerType, &'static str)>) -> Seq<(LayerType, Seq<char>)> {
    Seq::new(rules.len(), |i: int| (rules[i].0, rules[i].1@))
}

/// The KiCad rules: a hyphen and a token for the layer before `.gbr`. The
/// drill rules go from the narrow to the wide, down to any `.drl` file.
pub open spec fn kicad_rule_table() -> Seq<(LayerType, Seq<char>)> {
    seq![
        (LayerType::NpthThrough, "(?i)-?NPTH\\.drl$"@),
        (LayerType::NpthThrough, "(?i)NPTH\\.drl$"@),
        (LayerType::PthThrough, "(?i)-?PTH\\.drl$"@),
        (LayerType::PthThrough, "(?i)PTH\\.drl$"@),
        (LayerType::PthThrough, "(?i)\\.drl$"@),
        (LayerType::TopCopper, "-F_Cu\\.gbr$"@),
        (LayerType::BottomCopper, "-B_Cu\\.gbr$"@),
        (LayerType::InnerLayer(0), "-In(\\d+)_Cu\\.gbr$"@),
        (LayerType::TopSoldermask, "-F_Mask\\.gbr$"@),
        (LayerType::BottomSoldermask, "-B_Mask\\.gbr$"@),
        (LayerType::TopPasteMask, "-F_Paste\\.gbr$"@),
        (LayerType::BottomPasteMask, "-B_Paste\\.gbr$"@),
        (LayerType::TopSilkscreen, "-F_Silkscreen\\.gbr$"@),
        (LayerType::BottomSilkscreen, "-B_Silkscreen\\.gbr$"@),
        (LayerType::BoardOutline, "-Edge_Cuts\\.gbr$"@),
    ]
}

/// The Protel and Altium rules: the layer is in the extension, in any case.
pub open spec fn protel_rule_table() -> Seq<(LayerType, Seq<char>)> {
    seq![
        (LayerType::TopCopper, "(?i)\\.gtl$"@),
        (LayerType::BottomCopper, "(?i)\\.gbl$"@),
        (LayerType::TopSoldermask, "(?i)\\.gts$"@),
        (LayerType::BottomSoldermask, "(?i)\\.gbs$"@),
        (LayerType::TopPasteMask, "(?i)\\.gtp$"@),
        (LayerType::BottomPasteMask, "(?i)\\.gbp$"@),
        (LayerType::TopSilkscreen, "(?i)\\.gto$"@),
        (LayerType::BottomSilkscreen, "(?i)\\.gbo$"@),
        (LayerType::BoardOutline, "(?i)\\.gko$"@),
        (LayerType::BoardOutline, "(?i)\\.gm1$"@),
        (LayerType::BoardOutline, "(?i)\\.outline$"@),
        (LayerType::BoardOutline, "(?i)\\.oln$"@),
        (LayerType::InnerLayer(0), "(?i)\\.g(\\d+)$"@),
        (LayerType::InnerLayer(0), "(?i)\\.l(\\d+)$"@),
        (LayerType::PthThrough, "(?i)\\.drl$"@),
        (LayerType::PthThrough, "(?i)\\.txt$"@),
        (LayerType::NpthThrough, "(?i)npth\\.drl$"@),
        (LayerType::NpthThrough, "(?i)-npth\\.drl$"@),
        (LayerType::Other, "(?i)\\.drr$"@),
        (LayerType::Other, "(?i)\\.rep$"@),
        (LayerType::Other, "(?i)\\.rpt$"@),
    ]
}

/// The manufacturer's own rules: each canonical output name, in full.
pub open spec fn jlc_rule_table() -> Seq<(LayerType, Seq<char>)> {
    seq![
        (LayerType::NpthThrough, "^Drill_NPTH_Through\\.DRL$"@),
        (LayerType::PthThrough, "^Drill_PTH_Through\\.DRL$"@),
        (LayerType::PthThroughVia, "^Drill_PTH_Through_Via\\.DRL$"@),
        (LayerType::BottomSilkscreen, "^Gerber_BottomSilkscreenLayer\\.GBO$"@),
        (LayerType::BottomSoldermask, "^Gerber_BottomSolderMaskLayer\\.GBS$"@),
        (LayerType::BottomPasteMask, "^Gerber_BottomPasteMaskLayer\\.GBP$"@),
        (LayerType::BottomCopper, "^Gerber_BottomLayer\\.GBL$"@),
        (LayerType::TopSilkscreen, "^Gerber_TopSilkscreenLayer\\.GTO$"@),
        (LayerType::TopSoldermask, "^Gerber_TopSolderMaskLayer\\.GTS$"@),
        (LayerType::TopPasteMask, "^Gerber_TopPasteMaskLayer\\.GTP$"@),
        (LayerType::TopCopper, "^Gerber_TopLayer\\.GTL$"@),
        (LayerType::BoardOutline, "^Gerber_BoardOutlineLayer\\.GKO$"@),
        (LayerType::InnerLayer(0), "^Gerber_InnerLayer(\\d+)\\.G(\\d+)$"@),
    ]
}

/// The KiCad dialect.
pub open spec fn kicad_table() -> PatternTable {
    PatternTable { name: "KiCad"@, entries: entries_from(kicad_rule_table()) }
}

/// The Protel dialect.
pub open spec fn protel_table() -> PatternTable {
    PatternTable { name: "Protel"@, entries: entries_from(protel_rule_table()) }
}

/// The manufacturer's own dialect.
pub open spec fn jlc_table() -> PatternTable {
    PatternTable { name: "JLC"@, entries: entries_from(jlc_rule_table()) }
}

/// The dialect that detection settles on: the first of KiCad, Protel and the
/// manufacturer's own that makes out three kinds of layer among the names.
pub open spec fn detected(names: Seq<Seq<char>>) -> Option<PatternTable> {
    if can_handle(kicad_table().entries, names) {
        Some(kicad_table())
    } else if can_handle(protel_table().entries, names) {
        Some(protel_table())
    } else if can_handle(jlc_table().entries, names) {
        Some(jlc_table())
    } else {
        None
    }
}

impl EdaPatterns {
    /// Whether the rules make out at least three different kinds of layer
    /// among the filenames.
    pub fn can_handle_files(&self, filenames: &[String]) -> (r: bool)
        ensures
            r == can_handle(self@.entries, filenames.deep_view()),
    {
        let ghost entries = self@.entries;
        let ghost names = filenames.deep_view();
        let mut seen: Vec<bool> = Vec::new();
        let mut v: usize = 0;
        while v < 14
            invariant
                v <= 14,
                seen@.len() == v,
                forall|j: int| 0 <= j < v ==> !(#[trigger] seen@[j]),
            decreases 14 - v,
        {
            seen.push(false);
            v += 1;
        }
        let mut i: usize = 0;
        while i < filenames.len()
            invariant
                i <= filenames@.len(),
                entries == self@.entries,
                names == filenames.deep_view(),
                seen@.len() == 14,
                forall|w: int|
                    0 <= w < 14 ==> (#[trigger] seen@[w] <==> exists|j: int|
                        0 <= j < i && classified_as(entries, #[trigger] names[j], w)),
            decreases filenames@.len() - i,
        {
            assert(names[i as int] == filenames@[i as int]@);
            let ghost before = seen@;
            let found = self.match_filename(filenames[i].as_str());
            if let Some(kind) = found {
                seen.set(kind.variant_index(), true);
            }
            proof {
                assert forall|w: int| 0 <= w < 14 implies (#[trigger] seen@[w] <==> exists|j: int|
                    0 <= j < i + 1 && classified_as(entries, #[trigger] names[j], w)) by {
                    if seen@[w] {
                        if before[w] {
                            let j = choose|j: int|
                                0 <= j < i && classified_as(entries, #[trigger] names[j], w);
                            assert(0 <= j < i + 1 && classified_as(entries, names[j], w));
                        } else {
                            assert(classified_as(entries, names[i as int], w));
                        }
                    }
                    if exists|j: int|
                        0 <= j < i + 1 && classified_as(entries, #[trigger] names[j], w) {
                        let j = choose|j: int|
                            0 <= j < i + 1 && classified_as(entries, #[trigger] names[j], w);
                        if j < i {
                            assert(before[w]);
                        }
                    }
                }
            }
            i += 1;
        }
        let mut count: usize = 0;
        let mut w: usize = 0;
        while w < 14
            invariant
                w <= 14,
                seen@.len() == 14,
                count <= w,
                count == count_set(seen@.take(w as int)),
            decreases 14 - w,
        {
            assert(seen@.take(w + 1).drop_last() == seen@.take(w as int));
            if seen[w] {
                count += 1;
            }
            w += 1;
        }
        proof {
            assert(seen@.take(14) == seen@);
            lemma_count_set(seen@);
            assert(matched_variants(entries, names) =~= set_positions(seen@)) by {
                assert forall|x: int| matched_variants(entries, names).contains(x) implies 0 <= x
                    < 14 by {
                    let j = choose|j: int|
                        0 <= j < names.len() && classified_as(entries, #[trigger] names[j], x);
                }
            }
        }
        count >= 3
    }

    /// The dialect that a list of rules builds, each rule added in turn.
    fn from_rules(name: &str, rules: Vec<(LayerType, &'static str)>) -> (r: Self)
        ensures
            r@.name == name@,
            r@.entries == entries_from(rules_view(rules@)),
            r.wf(),
    {
        let mut out = Self::new(name.to_owned());
        let ghost all = rules_view(rules@);
        let mut i: usize = 0;
        while i < rules.len()
            invariant
                i <= rules@.len(),
                all == rules_view(rules@),
                out@.name == name@,
                out@.entries == entries_from(all.take(i as int)),
                out.wf(),
            decreases rules@.len() - i,
        {
            assert(all.take(i + 1).drop_last() == all.take(i as int));
            let (kind, rule) = rules[i];
            out.add_pattern(kind, rule.to_owned());
            i += 1;
        }
        assert(all.take(rules@.len() as int) == all);
        out
    }
}

/// The KiCad rules.
fn kicad_rules() -> (r: Vec<(LayerType, &'static str)>)
    ensures
        rules_view(r@) == kicad_rule_table(),
{
    let r = vec![
        (LayerType::NpthThrough, "(?i)-?NPTH\\.drl$"),
        (LayerType::NpthThrough, "(?i)NPTH\\.drl$"),
        (LayerType::PthThrough, "(?i)-?PTH\\.drl$"),
        (LayerType::PthThrough, "(?i)PTH\\.drl$"),
        (LayerType::PthThrough, "(?i)\\.drl$"),
        (LayerType::TopCopper, "-F_Cu\\.gbr$"),
        (LayerType::BottomCopper, "-B_Cu\\.gbr$"),
        (LayerType::InnerLayer(0), "-In(\\d+)_Cu\\.gbr$"),
        (LayerType::TopSoldermask, "-F_Mask\\.gbr$"),
        (LayerType::BottomSoldermask, "-B_Mask\\.gbr$"),
        (LayerType::TopPasteMask, "-F_Paste\\.gbr$"),
        (LayerType::BottomPasteMask, "-B_Paste\\.gbr$"),
        (LayerType::TopSilkscreen, "-F_Silkscreen\\.gbr$"),
        (LayerType::BottomSilkscreen, "-B_Silkscreen\\.gbr$"),
        (LayerType::BoardOutline, "-Edge_Cuts\\.gbr$"),
    ];
    assert(rules_view(r@) =~= kicad_rule_table());
    r
}

/// The Protel and Altium rules.
fn protel_rules() -> (r: Vec<(LayerType, &'static str)>)
    ensures
        rules_view(r@) == protel_rule_table(),
{
    let r = vec![
        (LayerType::TopCopper, "(?i)\\.gtl$"),
        (LayerType::BottomCopper, "(?i)\\.gbl$"),
        (LayerType::TopSoldermask, "(?i)\\.gts$"),
        (LayerType::BottomSoldermask, "(?i)\\.gbs$"),
        (LayerType::TopPasteMask, "(?i)\\.gtp$"),
        (LayerType::BottomPasteMask, "(?i)\\.gbp$"),
        (LayerType::TopSilkscreen, "(?i)\\.gto$"),
        (LayerType::BottomSilkscreen, "(?i)\\.gbo$"),
        (LayerType::BoardOutline, "(?i)\\.gko$"),
        (LayerType::BoardOutline, "(?i)\\.gm1$"),
        (LayerType::BoardOutline, "(?i)\\.outline$"),
        (LayerType::BoardOutline, "(?i)\\.oln$"),
        (LayerType::InnerLayer(0), "(?i)\\.g(\\d+)$"),
        (LayerType::InnerLayer(0), "(?i)\\.l(\\d+)$"),
        (LayerType::PthThrough, "(?i)\\.drl$"),
        (LayerType::PthThrough, "(?i)\\.txt$"),
        (LayerType::NpthThrough, "(?i)npth\\.drl$"),
        (LayerType::NpthThrough, "(?i)-npth\\.drl$"),
        (LayerType::Other, "(?i)\\.drr$"),
        (LayerType::Other, "(?i)\\.rep$"),
        (LayerType::Other, "(?i)\\.rpt$"),
    ];
    assert(rules_view(r@) =~= protel_rule_table());
    r
}

/// The manufacturer's own rules.
fn jlc_rules() -> (r: Vec<(LayerType, &'static str)>)
    ensures
        rules_view(r@) == jlc_rule_table(),
{
    let r = vec![
        (LayerType::NpthThrough, "^Drill_NPTH_Through\\.DRL$"),
        (LayerType::PthThrough, "^Drill_PTH_Through\\.DRL$"),
        (LayerType::PthThroughVia, "^Drill_PTH_Through_Via\\.DRL$"),
        (LayerType::BottomSilkscreen, "^Gerber_BottomSilkscreenLayer\\.GBO$"),
        (LayerType::BottomSoldermask, "^Gerber_BottomSolderMaskLayer\\.GBS$"),
        (LayerType::BottomPasteMask, "^Gerber_BottomPasteMaskLayer\\.GBP$"),
        (LayerType::BottomCopper, "^Gerber_BottomLayer\\.GBL$"),
        (LayerType::TopSilkscreen, "^Gerber_TopSilkscreenLayer\\.GTO$"),
        (LayerType::TopSoldermask, "^Gerber_TopSolderMaskLayer\\.GTS$"),
        (LayerType::TopPasteMask, "^Gerber_TopPasteMaskLayer\\.GTP$"),
        (LayerType::TopCopper, "^Gerber_TopLayer\\.GTL$"),
        (LayerType::BoardOutline, "^Gerber_BoardOutlineLayer\\.GKO$"),
        (LayerType::InnerLayer(0), "^Gerber_InnerLayer(\\d+)\\.G(\\d+)$"),
    ];
    assert(rules_view(r@) =~= jlc_rule_table());
    r
}

/// Makes the rule sets of the known dialects, and picks among them.
pub struct PatternMatcher;

impl PatternMatcher {
    /// The KiCad dialect.
    pub fn create_kicad_patterns() -> (r: EdaPatterns)
        ensures
            r@ == kicad_table(),
            r.wf(),
    {
        EdaPatterns::from_rules("KiCad", kicad_rules())
    }

    /// The Protel and Altium dialect.
    pub fn create_protel_patterns() -> (r: EdaPatterns)
        ensures
            r@ == protel_table(),
            r.wf(),
    {
        EdaPatterns::from_rules("Protel", protel_rules())
    }

    /// The manufacturer's own dialect, which recognises converted files.
    pub fn create_jlc_patterns() -> (r: EdaPatterns)
        ensures
            r@ == jlc_table(),
            r.wf(),
    {
        EdaPatterns::from_rules("JLC", jlc_rules())
    }

    /// Picks the dialect of a set of filenames: the first of KiCad, Protel
    /// and the manufacturer's own that makes out at least three kinds of
    /// layer among them.
    pub fn auto_detect_eda(files: &[String]) -> (r: Result<EdaPatterns, TransJlcError>)
        ensures
            match r {
                Ok(found) => detected(files.deep_view()) == Some(found@) && found.wf(),
                Err(e) => e == TransJlcError::NoMatchingPattern && detected(files.deep_view())
                    is None,
            },
    {
        let kicad = Self::create_kicad_patterns();
        if kicad.can_handle_files(files) {
            return Ok(kicad);
        }
        let protel = Self::create_protel_patterns();
        if protel.can_handle_files(files) {
            return Ok(protel);
        }
        let jlc = Self::create_jlc_patterns();
        if jlc.can_handle_files(files) {
            return Ok(jlc);
        }
        Err(TransJlcError::NoMatchingPattern)
    }

    /// A dialect of the caller's own, which starts without rules.
    pub fn create_custom_patterns(name: String) -> (r: EdaPatterns)
        ensures
            r@.name == name@,
            r@.entries == Seq::<(LayerType, Seq<Seq<char>>)>::empty(),
            r.wf(),
    {
        EdaPatterns::new(name)
    }
}

/// A drill file's name that a rule for non-plated holes matches is classified
/// as non-plated holes, whatever else matches it.
pub proof fn lemma_npth_takes_precedence(entries: Seq<(LayerType, Seq<Seq<char>>)>, name: Seq<char>)
    requires
        is_drill_name(name),
        any_hit(rules_for(entries, LayerType::NpthThrough), name),
    ensures
        match_name(entries, name) == Some(LayerType::NpthThrough),
{
}

/// A drill file's name that no rule for non-plated holes matches, and a rule
/// for plated holes does, is classified as plated holes, even where a rule
/// for plated vias matches it too.
pub proof fn lemma_pth_precedes_via(entries: Seq<(LayerType, Seq<Seq<char>>)>, name: Seq<char>)
    requires
        is_drill_name(name),
        !any_hit(rules_for(entries, LayerType::NpthThrough), name),
        any_hit(rules_for(entries, LayerType::PthThrough), name),
    ensures
        match_name(entries, name) == Some(LayerType::PthThrough),
{
}

/// A name that is no drill file's is never classified as a drill layer.
pub proof fn lemma_plain_name_is_no_drill_layer(
    entries: Seq<(LayerType, Seq<Seq<char>>)>,
    name: Seq<char>,
)
    ensures
        match_plain(entries, name) is Some ==> !match_plain(entries, name)->0.is_drill(),
        !is_drill_name(name) && match_name(entries, name) is Some ==> !match_name(
            entries,
            name,
        )->0.is_drill(),
    decreases entries.len(),
{
    if entries.len() > 0 {
        lemma_plain_name_is_no_drill_layer(entries.skip(1), name);
    }
}

/// Detection finds no dialect for a set of names among which each of the
/// known dialects makes out fewer than three kinds of layer.
pub proof fn lemma_detection_needs_three_kinds(names: Seq<Seq<char>>)
    requires
        !can_handle(kicad_table().entries, names),
        !can_handle(protel_table().entries, names),
        !can_handle(jlc_table().entries, names),
    ensures
        detected(names) is None,
{
}

/// The variants found among names are among the fourteen there are, so a
/// dialect is accepted on at most that many and on no fewer than three.
pub proof fn lemma_matched_variants_bounded(
    entries: Seq<(LayerType, Seq<Seq<char>>)>,
    names: Seq<Seq<char>>,
)
    ensures
        matched_variants(entries, names).finite(),
        matched_variants(entries, names).len() <= 14,
        matched_variants(entries, names).len() <= names.len(),
    decreases names.len(),
{
    let all = Set::new(|v: int| 0 <= v < 14);
    assert(all =~= vstd::set_lib::set_int_range(0, 14));
    vstd::set_lib::lemma_int_range(0, 14);
    assert(matched_variants(entries, names).subset_of(all)) by {
        assert forall|x: int| matched_variants(entries, names).contains(x) implies all.contains(
            x,
        ) by {
            let j = choose|j: int|
                0 <= j < names.len() && classified_as(entries, #[trigger] names[j], x);
        }
    }
    vstd::set_lib::lemma_len_subset(matched_variants(entries, names), all);
    if names.len() == 0 {
        assert(matched_variants(entries, names) =~= Set::<int>::empty());
    } else {
        let shorter = names.drop_last();
        lemma_matched_variants_bounded(entries, shorter);
        let last = match_name(entries, names.last());
        let found = if last is Some {
            matched_variants(entries, shorter).insert(last->0.variant())
        } else {
            matched_variants(entries, shorter)
        };
        assert(matched_variants(entries, names) =~= found) by {
            assert forall|x: int| matched_variants(entries, names).contains(x) implies found.contains(
                x,
            ) by {
                let j = choose|j: int|
                    0 <= j < names.len() && classified_as(entries, #[trigger] names[j], x);
                if j < shorter.len() {
                    assert(shorter[j] == names[j]);
                }
            }
            assert forall|x: int| found.contains(x) implies matched_variants(entries, names).contains(
                x,
            ) by {
                if matched_variants(entries, shorter).contains(x) {
                    let j = choose|j: int|
                        0 <= j < shorter.len() && classified_as(entries, #[trigger] shorter[j], x);
                    assert(shorter[j] == names[j]);
                } else {
                    assert(classified_as(entries, names[names.len() - 1], x));
                }
            }
        }
    }
}

/// The canonical filename of an inner layer holds the numeral of the layer's
/// number, which parses back to the number: different inner layers have
/// different canonical filenames.
pub proof fn lemma_inner_filenames_differ(a: u32, b: u32)
    requires
        LayerType::InnerLayer(a).jlc_filename() == LayerType::InnerLayer(b).jlc_filename(),
    ensures
        a == b,
{
    let lead = "Gerber_InnerLayer"@;
    let mid = ".G"@;
    let da = decimal(a as nat);
    let db = decimal(b as nat);
    let fa = lead + da + mid + da;
    let fb = lead + db + mid + db;
    assert(fa.len() == lead.len() + 2 * da.len() + mid.len());
    assert(fb.len() == lead.len() + 2 * db.len() + mid.len());
    assert(da.len() == db.len());
    assert(fa.subrange(lead.len() as int, (lead.len() + da.len()) as int) =~= da);
    assert(fb.subrange(lead.len() as int, (lead.len() + db.len()) as int) =~= db);
    crate::text::lemma_decimal_is_injective(a as nat, b as nat);
}

} // verus!
