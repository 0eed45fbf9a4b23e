//! Vulnerability advisories and the packages they affect.

use vstd::prelude::*;

use crate::layer::{copy_strings, Package, PackageModel};
use crate::sort::{key_order, lemma_sorted_by_map, sorted_by, stable_sort, SortKey};
use crate::text::{
    chars_eq, chars_of, lemma_seq_less_irreflexive, lemma_seq_less_transitive, lower_chars,
    lower_seq, seq_less, slice_chars, spells, str_eq, str_less, string_of, trim, trimmed_chars,
};
use crate::version::{compare_versions, version_order, VersionOrdering};

verus! {

/// One event of an OSV version range.
#[derive(Debug, Clone, PartialEq, Eq)]
pub enum RangeEvent {
    Introduced(String),
    Fixed(String),
    LastAffected(String),
    Limit(String),
}

/// The model of a [`RangeEvent`].
pub enum EventModel {
    Introduced(Seq<char>),
    Fixed(Seq<char>),
    LastAffected(Seq<char>),
    Limit(Seq<char>),
}

impl View for RangeEvent {
    type V = EventModel;

    open spec fn view(&self) -> EventModel {
        match self {
            RangeEvent::Introduced(v) => EventModel::Introduced(v@),
            RangeEvent::Fixed(v) => EventModel::Fixed(v@),
            RangeEvent::LastAffected(v) => EventModel::LastAffected(v@),
            RangeEvent::Limit(v) => EventModel::Limit(v@),
        }
    }
}

impl DeepView for RangeEvent {
    type V = EventModel;

    open spec fn deep_view(&self) -> EventModel {
        self@
    }
}

/// An OSV version range: a list of events.
#[derive(Debug, Clone, PartialEq, Eq)]
pub struct AffectedRange {
    pub events: Vec<RangeEvent>,
}

impl View for AffectedRange {
    type V = Seq<EventModel>;

    open spec fn view(&self) -> Seq<EventModel> {
        self.events.deep_view()
    }
}

impl DeepView for AffectedRange {
    type V = Seq<EventModel>;

    open spec fn deep_view(&self) -> Seq<EventModel> {
        self@
    }
}

/// A package that an advisory affects, with the versions and ranges it names.
#[derive(Debug, Clone, PartialEq, Eq)]
pub struct AffectedPackage {
    pub ecosystem: String,
    pub name: String,
    pub versions: Vec<String>,
    pub ranges: Vec<AffectedRange>,
}

/// The model of an [`AffectedPackage`].
pub struct AffectedModel {
    pub ecosystem: Seq<char>,
    pub name: Seq<char>,
    pub versions: Seq<Seq<char>>,
    pub ranges: Seq<Seq<EventModel>>,
}

impl View for AffectedPackage {
    type V = AffectedModel;

    open spec fn view(&self) -> AffectedModel {
        AffectedModel {
            ecosystem: self.ecosystem@,
            name: self.name@,
            versions: self.versions.deep_view(),
            ranges: self.ranges.deep_view(),
        }
    }
}

impl DeepView for AffectedPackage {
    type V = AffectedModel;

    open spec fn deep_view(&self) -> AffectedModel {
        self@
    }
}

/// The character sequence before the first occurrence of `c`, or all of it.
pub open spec fn before_char(s: Seq<char>, c: char) -> Seq<char>
    decreases s.len(),
{
    if s.len() == 0 {
        s
    } else if s[0] == c {
        Seq::empty()
    } else {
        seq![s[0]] + before_char(s.drop_first(), c)
    }
}

/// `s` with every `from` replaced by `to`.
pub open spec fn replace_char(s: Seq<char>, from: char, to: char) -> Seq<char> {
    Seq::new(s.len(), |i: int| if s[i] == from { to } else { s[i] })
}

/// The canonical name of a package ecosystem: trimmed, cut at the first
/// `:`, in lower case, with the aliases of Alpine, Debian and PyPI merged.
pub open spec fn ecosystem_model(ecosystem: Seq<char>) -> Seq<char> {
    let lower = lower_seq(before_char(trim(ecosystem), ':'));
    if lower == "apk"@ || lower == "alpine"@ {
        "alpine"@
    } else if lower == "deb"@ || lower == "debian"@ || lower == "dpkg"@ {
        "debian"@
    } else if lower == "python"@ || lower == "pypi"@ {
        "pypi"@
    } else {
        lower
    }
}

/// The canonical name of a package: trimmed, in lower case, `_` read as `-`.
pub open spec fn package_name_model(name: Seq<char>) -> Seq<char> {
    replace_char(lower_seq(trim(name)), '_', '-')
}

/// The state `(active, matched)` after the events of a range, for `version`.
pub open spec fn range_state(events: Seq<EventModel>, version: Seq<char>) -> (bool, bool)
    decreases events.len(),
{
    if events.len() == 0 {
        (false, false)
    } else {
        let (active, matched) = range_state(events.drop_last(), version);
        match events.last() {
            EventModel::Introduced(v) => (version_order(version, v) != VersionOrdering::Less, matched),
            EventModel::Fixed(v) => (
                false,
                matched || (active && version_order(version, v) == VersionOrdering::Less),
            ),
            EventModel::LastAffected(v) => (
                false,
                matched || (active && version_order(version, v) != VersionOrdering::Greater),
            ),
            EventModel::Limit(v) => (
                false,
                matched || (active && version_order(version, v) == VersionOrdering::Less),
            ),
        }
    }
}

/// Whether a range covers `version`: an `introduced` event opens the range
/// at versions not below it; `fixed` and `limit` close it below their
/// version, `last_affected` at or below its version; a range left open
/// covers every later version.
pub open spec fn range_covers(events: Seq<EventModel>, version: Seq<char>) -> bool {
    range_state(events, version).0 || range_state(events, version).1
}

/// Whether an affected package covers `version`: the version is listed, a
/// range covers it, or the package names neither versions nor ranges.
pub open spec fn affected_covers(affected: AffectedModel, version: Seq<char>) -> bool {
    ||| exists|i: int| 0 <= i < affected.versions.len() && affected.versions[i] == version
    ||| exists|i: int| 0 <= i < affected.ranges.len() && range_covers(affected.ranges[i], version)
    ||| affected.versions.len() == 0 && affected.ranges.len() == 0
}

/// Whether an affected package entry matches `package`: same canonical
/// ecosystem, same canonical name, and it covers the package version.
pub open spec fn affected_matches(affected: AffectedModel, package: PackageModel) -> bool {
    &&& ecosystem_model(affected.ecosystem) == ecosystem_model(package.ecosystem)
    &&& package_name_model(affected.name) == package_name_model(package.name)
    &&& affected_covers(affected, package.version)
}

/// `str::trim`, then `str::to_ascii_lowercase`, then `_` replaced by `-`.
pub fn normalize_name(name: &str) -> (r: String)
    ensures
        r@ == package_name_model(name@),
{
    let lowered = lower_chars(&trimmed_chars(name));
    let mut out: Vec<char> = Vec::new();
    let mut i: usize = 0;
    while i < lowered.len()
        invariant
            i <= lowered.len(),
            out@ == replace_char(lowered@.take(i as int), '_', '-'),
        decreases lowered.len() - i,
    {
        let c = lowered[i];
        out.push(if c == '_' { '-' } else { c });
        i = i + 1;
        assert(out@ =~= replace_char(lowered@.take(i as int), '_', '-'));
    }
    assert(lowered@.take(lowered.len() as int) =~= lowered@);
    string_of(&out)
}

/// The characters before the first `c`.
fn chars_before(v: &Vec<char>, c: char) -> (r: Vec<char>)
    ensures
        r@ == before_char(v@, c),
{
    let mut i: usize = 0;
    while i < v.len() && v[i] != c
        invariant
            i <= v.len(),
            forall|k: int| 0 <= k < i ==> v@[k] != c,
        decreases v.len() - i,
    {
        i = i + 1;
    }
    proof {
        lemma_before_char(v@, c, i as int);
    }
    slice_chars(v, 0, i)
}

proof fn lemma_before_char(s: Seq<char>, c: char, i: int)
    requires
        0 <= i <= s.len(),
        forall|k: int| 0 <= k < i ==> s[k] != c,
        i == s.len() || s[i] == c,
    ensures
        before_char(s, c) == s.subrange(0, i),
    decreases s.len(),
{
    if s.len() > 0 && s[0] != c {
        assert forall|k: int| 0 <= k < i - 1 implies s.drop_first()[k] != c by {
            assert(s.drop_first()[k] == s[k + 1]);
        }
        if i < s.len() {
            assert(s.drop_first()[i - 1] == s[i]);
        }
        lemma_before_char(s.drop_first(), c, i - 1);
        assert(seq![s[0]] + s.drop_first().subrange(0, i - 1) =~= s.subrange(0, i));
    } else if s.len() > 0 {
        assert(s.subrange(0, i) =~= Seq::<char>::empty());
    } else {
        assert(s.subrange(0, i) =~= s);
    }
}

/// The canonical name of a package ecosystem (see [`ecosystem_model`]).
pub fn normalize_ecosystem(ecosystem: &str) -> (r: String)
    ensures
        r@ == ecosystem_model(ecosystem@),
{
    let lower = lower_chars(&chars_before(&trimmed_chars(ecosystem), ':'));
    if spells(&lower, "apk") || spells(&lower, "alpine") {
        String::from_str("alpine")
    } else if spells(&lower, "deb") || spells(&lower, "debian") || spells(&lower, "dpkg") {
        String::from_str("debian")
    } else if spells(&lower, "python") || spells(&lower, "pypi") {
        String::from_str("pypi")
    } else {
        string_of(&lower)
    }
}

impl AffectedRange {
    /// Whether this range covers `version` (see [`range_covers`]).
    pub fn matches_version(&self, version: &str) -> (r: bool)
        ensures
            r == range_covers(self@, version@),
    {
        let mut active = false;
        let mut matched = false;
        let mut i: usize = 0;
        while i < self.events.len()
            invariant
                i <= self.events.len(),
                (active, matched) == range_state(self@.take(i as int), version@),
            decreases self.events.len() - i,
        {
            let ghost prefix = self@.take(i + 1);
            assert(prefix.drop_last() =~= self@.take(i as int));
            assert(prefix.last() == self.events@[i as int]@);
            match &self.events[i] {
                RangeEvent::Introduced(introduced) => {
                    active = !matches!(compare_versions(version, introduced.as_str()), VersionOrdering::Less);
                },
                RangeEvent::Fixed(fixed) => {
                    if active && matches!(compare_versions(version, fixed.as_str()), VersionOrdering::Less) {
                        matched = true;
                    }
                    active = false;
                },
                RangeEvent::LastAffected(last) => {
                    if active && !matches!(compare_versions(version, last.as_str()), VersionOrdering::Greater) {
                        matched = true;
                    }
                    active = false;
                },
                RangeEvent::Limit(limit) => {
                    if active && matches!(compare_versions(version, limit.as_str()), VersionOrdering::Less) {
                        matched = true;
                    }
                    active = false;
                },
            }
            i = i + 1;
        }
        assert(self@.take(self.events.len() as int) =~= self@);
        matched || active
    }
}

impl AffectedPackage {
    /// Whether this entry covers `version` (see [`affected_covers`]).
    pub fn matches_version(&self, version: &str) -> (r: bool)
        ensures
            r == affected_covers(self@, version@),
    {
        let mut i: usize = 0;
        while i < self.versions.len()
            invariant
                i <= self.versions.len(),
                forall|k: int| 0 <= k < i ==> self@.versions[k] != version@,
            decreases self.versions.len() - i,
        {
            if str_eq(self.versions[i].as_str(), version) {
                assert(self@.versions[i as int] == version@);
                return true;
            }
            i = i + 1;
        }
        let mut j: usize = 0;
        while j < self.ranges.len()
            invariant
                j <= self.ranges.len(),
                forall|k: int| 0 <= k < self@.versions.len() ==> self@.versions[k] != version@,
                forall|k: int| 0 <= k < j ==> !range_covers(self@.ranges[k], version@),
            decreases self.ranges.len() - j,
        {
            if self.ranges[j].matches_version(version) {
                assert(range_covers(self@.ranges[j as int], version@));
                return true;
            }
            j = j + 1;
        }
        self.versions.len() == 0 && self.ranges.len() == 0
    }

    /// An exact copy.
    pub fn duplicate(&self) -> (r: Self)
        ensures
            r@ == self@,
    {
        let mut ranges: Vec<AffectedRange> = Vec::new();
        let mut i: usize = 0;
        while i < self.ranges.len()
            invariant
                i <= self.ranges.len(),
                ranges.deep_view() == self.ranges.deep_view().take(i as int),
            decreases self.ranges.len() - i,
        {
            let copy = self.ranges[i].duplicate();
            let ghost before = ranges.deep_view();
            ranges.push(copy);
            assert(ranges.deep_view() =~= before.push(copy@));
            i = i + 1;
            assert(ranges.deep_view() =~= self.ranges.deep_view().take(i as int));
        }
        assert(self.ranges.deep_view().take(self.ranges.len() as int) =~= self.ranges.deep_view());
        AffectedPackage {
            ecosystem: self.ecosystem.clone(),
            name: self.name.clone(),
            versions: copy_strings(&self.versions),
            ranges,
        }
    }
}

impl RangeEvent {
    /// An exact copy.
    pub fn duplicate(&self) -> (r: Self)
        ensures
            r@ == self@,
    {
        match self {
            RangeEvent::Introduced(v) => RangeEvent::Introduced(v.clone()),
            RangeEvent::Fixed(v) => RangeEvent::Fixed(v.clone()),
            RangeEvent::LastAffected(v) => RangeEvent::LastAffected(v.clone()),
            RangeEvent::Limit(v) => RangeEvent::Limit(v.clone()),
        }
    }
}

impl AffectedRange {
    /// An exact copy.
    pub fn duplicate(&self) -> (r: Self)
        ensures
            r@ == self@,
    {
        let mut events: Vec<RangeEvent> = Vec::new();
        let mut i: usize = 0;
        while i < self.events.len()
            invariant
                i <= self.events.len(),
                events.deep_view() == self@.take(i as int),
            decreases self.events.len() - i,
        {
            let copy = self.events[i].duplicate();
            let ghost before = events.deep_view();
            events.push(copy);
            assert(events.deep_view() =~= before.push(copy@));
            i = i + 1;
            assert(events.deep_view() =~= self@.take(i as int));
        }
        assert(self@.take(self.events.len() as int) =~= self@);
        AffectedRange { events }
    }
}


/// A CVSS base score, carried as the bit pattern of its IEEE-754 binary64
/// value: the library passes it through to reports unchanged.
#[derive(Debug, Clone, Copy, PartialEq, Eq, Structural)]
pub struct OrderedScore(pub u64);

/// The severity of an advisory.
#[derive(Debug, Clone, Copy, PartialEq, Eq, Structural, Hash, PartialOrd, Ord)]
pub enum Severity {
    Negligible,
    Low,
    Medium,
    High,
    Critical,
}

/// The weight of a severity in the Component Importance Index.
pub open spec fn severity_weight(s: Severity) -> u64 {
    match s {
        Severity::Negligible => 0,
        Severity::Low => 1,
        Severity::Medium => 3,
        Severity::High => 7,
        Severity::Critical => 10,
    }
}

/// The lower-case name of a severity.
pub open spec fn severity_label(s: Severity) -> Seq<char> {
    match s {
        Severity::Negligible => "none"@,
        Severity::Low => "low"@,
        Severity::Medium => "medium"@,
        Severity::High => "high"@,
        Severity::Critical => "critical"@,
    }
}

/// The severity that a database-specific label names, in any letter case;
/// `moderate` names `Medium`.
pub open spec fn severity_of_label(label: Seq<char>) -> Option<Severity> {
    let lower = lower_seq(label);
    if lower == "none"@ {
        Some(Severity::Negligible)
    } else if lower == "low"@ {
        Some(Severity::Low)
    } else if lower == "medium"@ || lower == "moderate"@ {
        Some(Severity::Medium)
    } else if lower == "high"@ {
        Some(Severity::High)
    } else if lower == "critical"@ {
        Some(Severity::Critical)
    } else {
        None
    }
}

impl Severity {
    /// The weight of this severity (see [`severity_weight`]).
    pub fn weight(self) -> (w: u64)
        ensures
            w == severity_weight(self),
    {
        match self {
            Severity::Negligible => 0,
            Severity::Low => 1,
            Severity::Medium => 3,
            Severity::High => 7,
            Severity::Critical => 10,
        }
    }

    /// The lower-case name of this severity.
    pub fn as_str(self) -> (s: &'static str)
        ensures
            s@ == severity_label(self),
    {
        match self {
            Severity::Negligible => "none",
            Severity::Low => "low",
            Severity::Medium => "medium",
            Severity::High => "high",
            Severity::Critical => "critical",
        }
    }
}

/// The severity that a database-specific label names (see [`severity_of_label`]).
pub fn database_specific_severity(label: Option<&str>) -> (r: Option<Severity>)
    ensures
        r == (match label {
            Some(l) => severity_of_label(l@),
            None => None,
        }),
{
    match label {
        None => None,
        Some(l) => {
            let lower = lower_chars(&chars_of(l));
            if spells(&lower, "none") {
                Some(Severity::Negligible)
            } else if spells(&lower, "low") {
                Some(Severity::Low)
            } else if spells(&lower, "medium") || spells(&lower, "moderate") {
                Some(Severity::Medium)
            } else if spells(&lower, "high") {
                Some(Severity::High)
            } else if spells(&lower, "critical") {
                Some(Severity::Critical)
            } else {
                None
            }
        },
    }
}

/// A vulnerability advisory.
#[derive(Debug, Clone, PartialEq, Eq)]
pub struct Cve {
    pub id: String,
    pub aliases: Vec<String>,
    pub summary: Option<String>,
    pub cvss_score: Option<OrderedScore>,
    pub severity: Severity,
    pub affected: Vec<AffectedPackage>,
}

/// The model of a [`Cve`].
pub struct CveModel {
    pub id: Seq<char>,
    pub aliases: Seq<Seq<char>>,
    pub summary: Option<Seq<char>>,
    pub cvss_score: Option<u64>,
    pub severity: Severity,
    pub affected: Seq<AffectedModel>,
}

/// The bit pattern of an optional score.
pub open spec fn score_bits(s: Option<OrderedScore>) -> Option<u64> {
    match s {
        Some(OrderedScore(b)) => Some(b),
        None => None,
    }
}

impl View for Cve {
    type V = CveModel;

    open spec fn view(&self) -> CveModel {
        CveModel {
            id: self.id@,
            aliases: self.aliases.deep_view(),
            summary: self.summary.deep_view(),
            cvss_score: score_bits(self.cvss_score),
            severity: self.severity,
            affected: self.affected.deep_view(),
        }
    }
}

impl DeepView for Cve {
    type V = CveModel;

    open spec fn deep_view(&self) -> CveModel {
        self@
    }
}

/// Whether an advisory affects a package: one of its entries matches it.
pub open spec fn cve_affects(cve: CveModel, package: PackageModel) -> bool {
    exists|i: int| 0 <= i < cve.affected.len() && affected_matches(cve.affected[i], package)
}

impl Cve {
    /// An advisory; `cvss_score` is the bit pattern of the CVSS base score.
    pub fn new(
        id: String,
        aliases: Vec<String>,
        summary: Option<String>,
        cvss_score: Option<u64>,
        severity: Severity,
        affected: Vec<AffectedPackage>,
    ) -> (r: Self)
        ensures
            r@.id == id@,
            r@.aliases == aliases.deep_view(),
            r@.summary == summary.deep_view(),
            r@.cvss_score == cvss_score,
            r@.severity == severity,
            r@.affected == affected.deep_view(),
    {
        let score = match cvss_score {
            Some(bits) => Some(OrderedScore(bits)),
            None => None,
        };
        Cve { id, aliases, summary, cvss_score: score, severity, affected }
    }

    /// Whether this advisory affects `package` (see [`cve_affects`]).
    pub fn affects(&self, package: &Package) -> (r: bool)
        ensures
            r == cve_affects(self@, package@),
    {
        let ecosystem = normalize_ecosystem(package.ecosystem.as_str());
        let name = normalize_name(package.name.as_str());
        let mut i: usize = 0;
        while i < self.affected.len()
            invariant
                i <= self.affected.len(),
                ecosystem@ == ecosystem_model(package@.ecosystem),
                name@ == package_name_model(package@.name),
                forall|k: int| 0 <= k < i ==> !affected_matches(self@.affected[k], package@),
            decreases self.affected.len() - i,
        {
            let affected = &self.affected[i];
            assert(self@.affected[i as int] == affected@);
            if normalize_ecosystem(affected.ecosystem.as_str()) == ecosystem && normalize_name(
                affected.name.as_str(),
            ) == name && affected.matches_version(package.version.as_str()) {
                return true;
            }
            i = i + 1;
        }
        false
    }

    /// An exact copy.
    pub fn duplicate(&self) -> (r: Self)
        ensures
            r@ == self@,
    {
        let mut affected: Vec<AffectedPackage> = Vec::new();
        let mut i: usize = 0;
        while i < self.affected.len()
            invariant
                i <= self.affected.len(),
                affected.deep_view() == self.affected.deep_view().take(i as int),
            decreases self.affected.len() - i,
        {
            let copy = self.affected[i].duplicate();
            let ghost before = affected.deep_view();
            affected.push(copy);
            assert(affected.deep_view() =~= before.push(copy@));
            i = i + 1;
            assert(affected.deep_view() =~= self.affected.deep_view().take(i as int));
        }
        assert(self.affected.deep_view().take(self.affected.len() as int)
            =~= self.affected.deep_view());
        let summary = match &self.summary {
            Some(s) => Some(s.clone()),
            None => None,
        };
        Cve {
            id: self.id.clone(),
            aliases: copy_strings(&self.aliases),
            summary,
            cvss_score: self.cvss_score,
            severity: self.severity,
            affected,
        }
    }
}

impl SortKey for Cve {
    open spec fn precedes(self, other: Self) -> bool {
        seq_less(self.id@, other.id@)
    }

    proof fn precedes_irreflexive(a: Self) {
        lemma_seq_less_irreflexive(a.id@);
    }

    proof fn precedes_transitive(a: Self, b: Self, c: Self) {
        lemma_seq_less_transitive(a.id@, b.id@, c.id@);
    }

    fn goes_before(&self, other: &Self) -> (r: bool) {
        str_less(self.id.as_str(), other.id.as_str())
    }
}

/// The order of advisories in a database: by identifier.
pub open spec fn cve_id_order() -> spec_fn(CveModel, CveModel) -> bool {
    |a: CveModel, b: CveModel| seq_less(a.id, b.id)
}

/// The advisories of a sequence that affect a package, in their order.
pub open spec fn affecting(cves: Seq<CveModel>, package: PackageModel) -> Seq<CveModel>
    decreases cves.len(),
{
    if cves.len() == 0 {
        cves
    } else if cve_affects(cves.last(), package) {
        affecting(cves.drop_last(), package).push(cves.last())
    } else {
        affecting(cves.drop_last(), package)
    }
}

/// A set of advisories to match packages against.
#[derive(Debug, Clone, PartialEq, Eq)]
pub struct CveDatabase {
    cves: Vec<Cve>,
}

impl View for CveDatabase {
    type V = Seq<CveModel>;

    closed spec fn view(&self) -> Seq<CveModel> {
        self.cves.deep_view()
    }
}

impl CveDatabase {
    /// The database that holds `cves`, in their order.
    pub fn from_cves(cves: Vec<Cve>) -> (r: Self)
        ensures
            r@ == cves.deep_view(),
    {
        CveDatabase { cves }
    }

    /// The advisories that affect `package`, in database order.
    pub fn find(&self, package: &Package) -> (r: Vec<Cve>)
        ensures
            r.deep_view() == affecting(self@, package@),
    {
        let mut found: Vec<Cve> = Vec::new();
        let mut i: usize = 0;
        while i < self.cves.len()
            invariant
                i <= self.cves.len(),
                found.deep_view() == affecting(self@.take(i as int), package@),
            decreases self.cves.len() - i,
        {
            let ghost prefix = self@.take(i + 1);
            assert(prefix.drop_last() =~= self@.take(i as int));
            assert(prefix.last() == self.cves@[i as int]@);
            if self.cves[i].affects(package) {
                let copy = self.cves[i].duplicate();
                let ghost before = found.deep_view();
                found.push(copy);
                assert(found.deep_view() =~= before.push(copy@));
            }
            i = i + 1;
        }
        assert(self@.take(self.cves.len() as int) =~= self@);
        found
    }

    /// The database of the advisories of an OSV feed, ordered by identifier;
    /// advisories with equal identifiers keep their feed order.
    pub fn from_advisories(advisories: Vec<OsvAdvisory>) -> (r: Self)
        ensures
            r@ == sorted_by(
                Seq::new(advisories@.len(), |i: int| advisory_model(advisories@[i])),
                cve_id_order(),
            ),
    {
        let ghost models = Seq::new(advisories@.len(), |i: int| advisory_model(advisories@[i]));
        let mut cves: Vec<Cve> = Vec::new();
        let mut i: usize = 0;
        while i < advisories.len()
            invariant
                i <= advisories.len(),
                models == Seq::new(advisories@.len(), |i: int| advisory_model(advisories@[i])),
                cves.deep_view() == models.take(i as int),
            decreases advisories.len() - i,
        {
            let cve = advisories[i].to_cve();
            let ghost before = cves.deep_view();
            cves.push(cve);
            assert(cves.deep_view() =~= before.push(cve@));
            i = i + 1;
            assert(cves.deep_view() =~= models.take(i as int));
        }
        assert(models.take(advisories.len() as int) =~= models);
        let ghost unsorted = cves@;
        let sorted = stable_sort(cves);
        proof {
            let m = |c: Cve| c@;
            assert forall|p: Cve, q: Cve| #[trigger] key_order::<Cve>()(p, q) == cve_id_order()(m(p), m(q)) by {}
            lemma_sorted_by_map(unsorted, key_order::<Cve>(), cve_id_order(), m);
            assert(unsorted.map_values(m) =~= models);
            assert(sorted.deep_view() =~= sorted_by(unsorted, key_order::<Cve>()).map_values(m));
        }
        CveDatabase { cves: sorted }
    }
}

/// An OSV package reference.
#[derive(Debug, Clone, PartialEq, Eq)]
pub struct OsvPackage {
    pub ecosystem: String,
    pub name: String,
}

/// An OSV range event: at most one of its fields is expected to be set.
#[derive(Debug, Clone, PartialEq, Eq)]
pub struct OsvEvent {
    pub introduced: Option<String>,
    pub fixed: Option<String>,
    pub last_affected: Option<String>,
    pub limit: Option<String>,
}

/// An OSV version range.
#[derive(Debug, Clone, PartialEq, Eq)]
pub struct OsvRange {
    pub events: Vec<OsvEvent>,
}

/// An OSV `affected` entry.
#[derive(Debug, Clone, PartialEq, Eq)]
pub struct OsvAffected {
    pub package: Option<OsvPackage>,
    pub ranges: Vec<OsvRange>,
    pub versions: Vec<String>,
}

/// The highest CVSS base score of an advisory with its severity band.
#[derive(Debug, Clone, Copy, PartialEq, Eq)]
pub struct CvssRating {
    pub score: OrderedScore,
    pub severity: Severity,
}

/// An OSV advisory as the feed loader reads it: the CVSS entries are rated
/// already, and the database-specific severity label is kept as text.
#[derive(Debug, Clone, PartialEq, Eq)]
pub struct OsvAdvisory {
    pub id: String,
    pub aliases: Vec<String>,
    pub summary: Option<String>,
    pub cvss: Option<CvssRating>,
    pub database_severity: Option<String>,
    pub affected: Vec<OsvAffected>,
}

/// The range event that an OSV event stands for: the first of its fields
/// that is set, in the order introduced, fixed, last_affected, limit.
pub open spec fn event_model(e: OsvEvent) -> Option<EventModel> {
    if e.introduced is Some {
        Some(EventModel::Introduced(e.introduced.unwrap()@))
    } else if e.fixed is Some {
        Some(EventModel::Fixed(e.fixed.unwrap()@))
    } else if e.last_affected is Some {
        Some(EventModel::LastAffected(e.last_affected.unwrap()@))
    } else if e.limit is Some {
        Some(EventModel::Limit(e.limit.unwrap()@))
    } else {
        None
    }
}

/// The events of an OSV range that stand for range events, in order.
pub open spec fn range_events(events: Seq<OsvEvent>) -> Seq<EventModel>
    decreases events.len(),
{
    if events.len() == 0 {
        Seq::empty()
    } else {
        match event_model(events.last()) {
            Some(m) => range_events(events.drop_last()).push(m),
            None => range_events(events.drop_last()),
        }
    }
}

/// The affected package that an OSV entry stands for, where it names one.
pub open spec fn affected_model(a: OsvAffected) -> Option<AffectedModel> {
    match a.package {
        Some(p) => Some(
            AffectedModel {
                ecosystem: p.ecosystem@,
                name: p.name@,
                versions: a.versions.deep_view(),
                ranges: Seq::new(a.ranges@.len(), |i: int| range_events(a.ranges@[i].events@)),
            },
        ),
        None => None,
    }
}

/// The affected packages of the entries that name one, in order.
pub open spec fn affected_models(entries: Seq<OsvAffected>) -> Seq<AffectedModel>
    decreases entries.len(),
{
    if entries.len() == 0 {
        Seq::empty()
    } else {
        match affected_model(entries.last()) {
            Some(m) => affected_models(entries.drop_last()).push(m),
            None => affected_models(entries.drop_last()),
        }
    }
}

/// The advisory that an OSV advisory stands for: the severity is the CVSS
/// band where a CVSS score was rated, else the database-specific label,
/// else `None`.
pub open spec fn advisory_model(a: OsvAdvisory) -> CveModel {
    CveModel {
        id: a.id@,
        aliases: a.aliases.deep_view(),
        summary: a.summary.deep_view(),
        cvss_score: match a.cvss {
            Some(c) => Some(c.score.0),
            None => None,
        },
        severity: match a.cvss {
            Some(c) => c.severity,
            None => match a.database_severity {
                Some(l) => match severity_of_label(l@) {
                    Some(s) => s,
                    None => Severity::Negligible,
                },
                None => Severity::Negligible,
            },
        },
        affected: affected_models(a.affected@),
    }
}

fn copy_option(s: &Option<String>) -> (r: Option<String>)
    ensures
        r.deep_view() == s.deep_view(),
{
    match s {
        Some(v) => Some(v.clone()),
        None => None,
    }
}

impl OsvEvent {
    /// The range event this event stands for (see [`event_model`]).
    pub fn into_range_event(&self) -> (r: Option<RangeEvent>)
        ensures
            r.deep_view() == event_model(*self),
    {
        if let Some(v) = &self.introduced {
            Some(RangeEvent::Introduced(v.clone()))
        } else if let Some(v) = &self.fixed {
            Some(RangeEvent::Fixed(v.clone()))
        } else if let Some(v) = &self.last_affected {
            Some(RangeEvent::LastAffected(v.clone()))
        } else if let Some(v) = &self.limit {
            Some(RangeEvent::Limit(v.clone()))
        } else {
            None
        }
    }
}

impl OsvRange {
    /// The range this OSV range stands for (see [`range_events`]).
    pub fn into_affected_range(&self) -> (r: AffectedRange)
        ensures
            r@ == range_events(self.events@),
    {
        let mut events: Vec<RangeEvent> = Vec::new();
        let mut i: usize = 0;
        while i < self.events.len()
            invariant
                i <= self.events.len(),
                events.deep_view() == range_events(self.events@.take(i as int)),
            decreases self.events.len() - i,
        {
            let ghost prefix = self.events@.take(i + 1);
            assert(prefix.drop_last() =~= self.events@.take(i as int));
            assert(prefix.last() == self.events@[i as int]);
            match self.events[i].into_range_event() {
                Some(e) => {
                    let ghost before = events.deep_view();
                    events.push(e);
                    assert(events.deep_view() =~= before.push(e@));
                },
                None => {},
            }
            i = i + 1;
        }
        assert(self.events@.take(self.events.len() as int) =~= self.events@);
        AffectedRange { events }
    }
}

impl OsvAffected {
    /// The affected package this entry stands for (see [`affected_model`]).
    pub fn into_affected_package(&self) -> (r: Option<AffectedPackage>)
        ensures
            r.deep_view() == affected_model(*self),
    {
        match &self.package {
            None => None,
            Some(p) => {
                let mut ranges: Vec<AffectedRange> = Vec::new();
                let mut i: usize = 0;
                while i < self.ranges.len()
                    invariant
                        i <= self.ranges.len(),
                        ranges.deep_view() == Seq::new(
                            i as nat,
                            |k: int| range_events(self.ranges@[k].events@),
                        ),
                    decreases self.ranges.len() - i,
                {
                    let r = self.ranges[i].into_affected_range();
                    let ghost before = ranges.deep_view();
                    ranges.push(r);
                    assert(ranges.deep_view() =~= before.push(r@));
                    i = i + 1;
                    assert(ranges.deep_view() =~= Seq::new(
                        i as nat,
                        |k: int| range_events(self.ranges@[k].events@),
                    ));
                }
                let r = AffectedPackage {
                    ecosystem: p.ecosystem.clone(),
                    name: p.name.clone(),
                    versions: copy_strings(&self.versions),
                    ranges,
                };
                assert(r@.ranges =~= Seq::new(
                    self.ranges@.len(),
                    |k: int| range_events(self.ranges@[k].events@),
                ));
                Some(r)
            },
        }
    }
}

impl OsvAdvisory {
    /// The advisory this OSV advisory stands for (see [`advisory_model`]).
    pub fn to_cve(&self) -> (r: Cve)
        ensures
            r@ == advisory_model(*self),
    {
        let severity = match &self.cvss {
            Some(c) => c.severity,
            None => {
                let label = match &self.database_severity {
                    Some(l) => Some(l.as_str()),
                    None => None,
                };
                match database_specific_severity(label) {
                    Some(s) => s,
                    None => Severity::Negligible,
                }
            },
        };
        let mut affected: Vec<AffectedPackage> = Vec::new();
        let mut i: usize = 0;
        while i < self.affected.len()
            invariant
                i <= self.affected.len(),
                affected.deep_view() == affected_models(self.affected@.take(i as int)),
            decreases self.affected.len() - i,
        {
            let ghost prefix = self.affected@.take(i + 1);
            assert(prefix.drop_last() =~= self.affected@.take(i as int));
            assert(prefix.last() == self.affected@[i as int]);
            match self.affected[i].into_affected_package() {
                Some(a) => {
                    let ghost before = affected.deep_view();
                    affected.push(a);
                    assert(affected.deep_view() =~= before.push(a@));
                },
                None => {},
            }
            i = i + 1;
        }
        assert(self.affected@.take(self.affected.len() as int) =~= self.affected@);
        let score = match &self.cvss {
            Some(c) => Some(c.score),
            None => None,
        };
        Cve {
            id: self.id.clone(),
            aliases: copy_strings(&self.aliases),
            summary: copy_option(&self.summary),
            cvss_score: score,
            severity,
            affected,
        }
    }
}

/// A range left open covers every version from its opening on: where the
/// last event of a range is `introduced` at or below the version, the range
/// covers the version, whatever came before.
pub proof fn open_range_covers_later_versions(events: Seq<EventModel>, version: Seq<char>)
    requires
        events.len() > 0,
        events.last() matches EventModel::Introduced(v) && version_order(version, v)
            != VersionOrdering::Less,
    ensures
        range_covers(events, version),
{
}

/// An entry that names the package and leaves a range open from a version
/// at or below the package's makes the advisory affect the package.
pub proof fn unfixed_advisory_affects_package(cve: CveModel, i: int, j: int, package: PackageModel)
    requires
        0 <= i < cve.affected.len(),
        ecosystem_model(cve.affected[i].ecosystem) == ecosystem_model(package.ecosystem),
        package_name_model(cve.affected[i].name) == package_name_model(package.name),
        0 <= j < cve.affected[i].ranges.len(),
        cve.affected[i].ranges[j].len() > 0,
        cve.affected[i].ranges[j].last() matches EventModel::Introduced(v) && version_order(
            package.version,
            v,
        ) != VersionOrdering::Less,
    ensures
        cve_affects(cve, package),
{
    open_range_covers_later_versions(cve.affected[i].ranges[j], package.version);
    assert(affected_matches(cve.affected[i], package));
}

/// The severity of an advisory is its CVSS rating's band whenever it has a
/// rating, whatever its database-specific label says; the label counts only
/// without a rating, and an advisory with neither has severity none.
pub proof fn cvss_rating_decides_severity(a: OsvAdvisory)
    ensures
        a.cvss matches Some(c) ==> advisory_model(a).severity == c.severity,
        a.cvss is None ==> match a.database_severity {
            Some(l) => match severity_of_label(l@) {
                Some(s) => advisory_model(a).severity == s,
                None => advisory_model(a).severity == Severity::Negligible,
            },
            None => advisory_model(a).severity == Severity::Negligible,
        },
{
}

} // verus!
