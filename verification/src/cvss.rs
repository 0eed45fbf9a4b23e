//! The base metrics of a CVSS v3 vector such as
//! `CVSS:3.1/AV:N/AC:L/PR:N/UI:N/S:U/C:H/I:H/A:H`.
//!
//! A vector is split on `/`; each part is split at its first `:` into a
//! metric and a value, parts without `:` are skipped, and a metric given
//! twice takes its last value.  The scope is `U` unless `S` says otherwise.

use vstd::prelude::*;

use crate::text::{chars_of, slice_chars, spells};

verus! {

broadcast use vstd::seq_lib::group_seq_properties;

/// The attack vector metric (`AV`).
#[derive(Debug, Clone, Copy, PartialEq, Eq, Structural)]
pub enum AttackVector {
    Network,
    Adjacent,
    Local,
    Physical,
}

/// The attack complexity metric (`AC`).
#[derive(Debug, Clone, Copy, PartialEq, Eq, Structural)]
pub enum AttackComplexity {
    Low,
    High,
}

/// The privileges required metric (`PR`).
#[derive(Debug, Clone, Copy, PartialEq, Eq, Structural)]
pub enum PrivilegesRequired {
    NotRequired,
    Low,
    High,
}

/// The user interaction metric (`UI`).
#[derive(Debug, Clone, Copy, PartialEq, Eq, Structural)]
pub enum UserInteraction {
    NotRequired,
    Required,
}

/// A confidentiality, integrity or availability impact (`C`, `I`, `A`).
#[derive(Debug, Clone, Copy, PartialEq, Eq, Structural)]
pub enum Impact {
    High,
    Low,
    Absent,
}

/// The base metrics of a CVSS v3 vector.
#[derive(Debug, Clone, Copy, PartialEq, Eq, Structural)]
pub struct CvssV3Metrics {
    pub attack_vector: AttackVector,
    pub attack_complexity: AttackComplexity,
    pub privileges_required: PrivilegesRequired,
    pub user_interaction: UserInteraction,
    /// Whether the scope is changed (`S:C`).
    pub scope_changed: bool,
    pub confidentiality: Impact,
    pub integrity: Impact,
    pub availability: Impact,
}

/// The parts of `s` between `/` characters (`str::split('/')`): one more
/// than there are separators.
pub open spec fn vector_parts(s: Seq<char>) -> Seq<Seq<char>>
    decreases s.len(),
{
    if s.len() == 0 {
        seq![Seq::<char>::empty()]
    } else {
        let prev = vector_parts(s.drop_last());
        if s.last() == '/' {
            prev.push(Seq::<char>::empty())
        } else {
            prev.update(prev.len() - 1, prev.last().push(s.last()))
        }
    }
}

/// `i` is the first `:` of `p`.
pub open spec fn first_colon_at(p: Seq<char>, i: int) -> bool {
    0 <= i < p.len() && p[i] == ':' && forall|j: int| 0 <= j < i ==> p[j] != ':'
}

/// A part split at its first `:` (`str::split_once(':')`).
pub open spec fn metric_pair(p: Seq<char>) -> Option<(Seq<char>, Seq<char>)> {
    if exists|i: int| first_colon_at(p, i) {
        let i = choose|i: int| first_colon_at(p, i);
        Some((p.take(i), p.skip(i + 1)))
    } else {
        None
    }
}

/// The last value that the parts give the metric `key`.
pub open spec fn metric_value(parts: Seq<Seq<char>>, key: Seq<char>) -> Option<Seq<char>>
    decreases parts.len(),
{
    if parts.len() == 0 {
        None
    } else {
        match metric_pair(parts.last()) {
            Some((k, v)) => if k == key {
                Some(v)
            } else {
                metric_value(parts.drop_last(), key)
            },
            None => metric_value(parts.drop_last(), key),
        }
    }
}

/// The attack vector that a value names.
pub open spec fn attack_vector_of(v: Seq<char>) -> Option<AttackVector> {
    if v == "N"@ {
        Some(AttackVector::Network)
    } else if v == "A"@ {
        Some(AttackVector::Adjacent)
    } else if v == "L"@ {
        Some(AttackVector::Local)
    } else if v == "P"@ {
        Some(AttackVector::Physical)
    } else {
        None
    }
}

/// The attack complexity that a value names.
pub open spec fn attack_complexity_of(v: Seq<char>) -> Option<AttackComplexity> {
    if v == "L"@ {
        Some(AttackComplexity::Low)
    } else if v == "H"@ {
        Some(AttackComplexity::High)
    } else {
        None
    }
}

/// The privileges that a value names; `L` and `H` count only under scope
/// `U` or `C`.
pub open spec fn privileges_of(v: Seq<char>, scope: Seq<char>) -> Option<PrivilegesRequired> {
    if v == "N"@ {
        Some(PrivilegesRequired::NotRequired)
    } else if !(scope == "U"@ || scope == "C"@) {
        None
    } else if v == "L"@ {
        Some(PrivilegesRequired::Low)
    } else if v == "H"@ {
        Some(PrivilegesRequired::High)
    } else {
        None
    }
}

/// The user interaction that a value names.
pub open spec fn user_interaction_of(v: Seq<char>) -> Option<UserInteraction> {
    if v == "N"@ {
        Some(UserInteraction::NotRequired)
    } else if v == "R"@ {
        Some(UserInteraction::Required)
    } else {
        None
    }
}

/// The impact that a value names.
pub open spec fn impact_of(v: Seq<char>) -> Option<Impact> {
    if v == "H"@ {
        Some(Impact::High)
    } else if v == "L"@ {
        Some(Impact::Low)
    } else if v == "N"@ {
        Some(Impact::Absent)
    } else {
        None
    }
}

/// A named metric's value read through `of`, if the metric is given and
/// its value is known.
pub open spec fn read_metric<T>(parts: Seq<Seq<char>>, key: Seq<char>, of: spec_fn(Seq<char>) -> Option<T>) -> Option<T> {
    match metric_value(parts, key) {
        Some(v) => of(v),
        None => None,
    }
}

/// The scope of a vector: its last `S` value, else `U`.
pub open spec fn vector_scope(parts: Seq<Seq<char>>) -> Seq<char> {
    match metric_value(parts, "S"@) {
        Some(s) => s,
        None => "U"@,
    }
}

/// The base metrics of a vector, where each of `AV`, `AC`, `PR`, `UI`, `C`,
/// `I` and `A` is given with a known value.
pub open spec fn cvss_v3_metrics_model(vector: Seq<char>) -> Option<CvssV3Metrics> {
    let parts = vector_parts(vector);
    let scope = vector_scope(parts);
    let av = read_metric(parts, "AV"@, |v: Seq<char>| attack_vector_of(v));
    let ac = read_metric(parts, "AC"@, |v: Seq<char>| attack_complexity_of(v));
    let pr = read_metric(parts, "PR"@, |v: Seq<char>| privileges_of(v, scope));
    let ui = read_metric(parts, "UI"@, |v: Seq<char>| user_interaction_of(v));
    let c = read_metric(parts, "C"@, |v: Seq<char>| impact_of(v));
    let i = read_metric(parts, "I"@, |v: Seq<char>| impact_of(v));
    let a = read_metric(parts, "A"@, |v: Seq<char>| impact_of(v));
    if av is Some && ac is Some && pr is Some && ui is Some && c is Some && i is Some && a is Some {
        Some(
            CvssV3Metrics {
                attack_vector: av.unwrap(),
                attack_complexity: ac.unwrap(),
                privileges_required: pr.unwrap(),
                user_interaction: ui.unwrap(),
                scope_changed: scope == "C"@,
                confidentiality: c.unwrap(),
                integrity: i.unwrap(),
                availability: a.unwrap(),
            },
        )
    } else {
        None
    }
}

/// The parts of a vector (see [`vector_parts`]).
fn split_vector(chars: &Vec<char>) -> (r: Vec<Vec<char>>)
    ensures
        r@.map_values(|v: Vec<char>| v@) == vector_parts(chars@),
{
    let mut done: Vec<Vec<char>> = Vec::new();
    let mut current: Vec<char> = Vec::new();
    let mut i: usize = 0;
    while i < chars.len()
        invariant
            i <= chars.len(),
            done@.map_values(|v: Vec<char>| v@).push(current@) == vector_parts(chars@.take(i as int)),
        decreases chars.len() - i,
    {
        let ghost prefix = chars@.take(i + 1);
        assert(prefix.drop_last() =~= chars@.take(i as int));
        assert(prefix.last() == chars@[i as int]);
        let ghost before = done@.map_values(|v: Vec<char>| v@).push(current@);
        if chars[i] == '/' {
            let finished = current;
            let ghost old_done = done@.map_values(|v: Vec<char>| v@);
            done.push(finished);
            assert(done@.map_values(|v: Vec<char>| v@) =~= old_done.push(finished@));
            current = Vec::new();
            assert(done@.map_values(|v: Vec<char>| v@).push(current@) =~= before.push(Seq::<char>::empty()));
        } else {
            current.push(chars[i]);
            assert(done@.map_values(|v: Vec<char>| v@).push(current@) =~= before.update(
                before.len() - 1,
                before.last().push(chars@[i as int]),
            ));
        }
        i = i + 1;
    }
    assert(chars@.take(chars.len() as int) =~= chars@);
    let ghost old_done = done@.map_values(|v: Vec<char>| v@);
    let last = current;
    done.push(last);
    assert(done@.map_values(|v: Vec<char>| v@) =~= old_done.push(last@));
    done
}

/// A part split at its first `:` (see [`metric_pair`]).
fn split_pair(part: &Vec<char>) -> (r: Option<(Vec<char>, Vec<char>)>)
    ensures
        match metric_pair(part@) {
            Some((k, v)) => r matches Some((rk, rv)) && rk@ == k && rv@ == v,
            None => r is None,
        },
{
    let mut i: usize = 0;
    while i < part.len() && part[i] != ':'
        invariant
            i <= part.len(),
            forall|j: int| 0 <= j < i ==> part@[j] != ':',
        decreases part.len() - i,
    {
        i = i + 1;
    }
    if i < part.len() {
        assert(first_colon_at(part@, i as int));
        let ghost c = choose|c: int| first_colon_at(part@, c);
        assert(c == i) by {
            if c < i {
                assert(part@[c] != ':');
            } else if c > i {
                assert(part@[i as int] != ':');
            }
        }
        let key = slice_chars(part, 0, i);
        let value = slice_chars(part, i + 1, part.len());
        assert(key@ =~= part@.take(i as int));
        assert(value@ =~= part@.skip(i + 1));
        Some((key, value))
    } else {
        assert forall|c: int| !first_colon_at(part@, c) by {
            if 0 <= c < part@.len() {
                assert(part@[c] != ':');
            }
        }
        None
    }
}

/// The last value of the metric `key` (see [`metric_value`]).
fn find_metric(parts: &Vec<Vec<char>>, key: &str) -> (r: Option<Vec<char>>)
    ensures
        match metric_value(parts@.map_values(|v: Vec<char>| v@), key@) {
            Some(v) => r matches Some(rv) && rv@ == v,
            None => r is None,
        },
{
    let mut found: Option<Vec<char>> = None;
    let mut i: usize = 0;
    while i < parts.len()
        invariant
            i <= parts.len(),
            match metric_value(parts@.map_values(|v: Vec<char>| v@).take(i as int), key@) {
                Some(v) => found matches Some(fv) && fv@ == v,
                None => found is None,
            },
        decreases parts.len() - i,
    {
        let ghost prefix = parts@.map_values(|v: Vec<char>| v@).take(i + 1);
        assert(prefix.drop_last() =~= parts@.map_values(|v: Vec<char>| v@).take(i as int));
        assert(prefix.last() == parts@[i as int]@);
        match split_pair(&parts[i]) {
            Some((k, v)) => {
                if spells(&k, key) {
                    found = Some(v);
                }
            },
            None => {},
        }
        i = i + 1;
    }
    assert(parts@.map_values(|v: Vec<char>| v@).take(parts.len() as int) =~= parts@.map_values(|v: Vec<char>| v@));
    found
}

fn attack_vector_value(v: &Vec<char>) -> (r: Option<AttackVector>)
    ensures
        r == attack_vector_of(v@),
{
    if spells(v, "N") {
        Some(AttackVector::Network)
    } else if spells(v, "A") {
        Some(AttackVector::Adjacent)
    } else if spells(v, "L") {
        Some(AttackVector::Local)
    } else if spells(v, "P") {
        Some(AttackVector::Physical)
    } else {
        None
    }
}

fn attack_complexity_value(v: &Vec<char>) -> (r: Option<AttackComplexity>)
    ensures
        r == attack_complexity_of(v@),
{
    if spells(v, "L") {
        Some(AttackComplexity::Low)
    } else if spells(v, "H") {
        Some(AttackComplexity::High)
    } else {
        None
    }
}

fn privileges_value(v: &Vec<char>, scope_is_u_or_c: bool) -> (r: Option<PrivilegesRequired>)
    ensures
        forall|scope: Seq<char>|
            scope_is_u_or_c == (scope == "U"@ || scope == "C"@) ==> r == privileges_of(v@, scope),
{
    if spells(v, "N") {
        Some(PrivilegesRequired::NotRequired)
    } else if !scope_is_u_or_c {
        None
    } else if spells(v, "L") {
        Some(PrivilegesRequired::Low)
    } else if spells(v, "H") {
        Some(PrivilegesRequired::High)
    } else {
        None
    }
}

fn user_interaction_value(v: &Vec<char>) -> (r: Option<UserInteraction>)
    ensures
        r == user_interaction_of(v@),
{
    if spells(v, "N") {
        Some(UserInteraction::NotRequired)
    } else if spells(v, "R") {
        Some(UserInteraction::Required)
    } else {
        None
    }
}

fn impact_value(v: &Vec<char>) -> (r: Option<Impact>)
    ensures
        r == impact_of(v@),
{
    if spells(v, "H") {
        Some(Impact::High)
    } else if spells(v, "L") {
        Some(Impact::Low)
    } else if spells(v, "N") {
        Some(Impact::Absent)
    } else {
        None
    }
}

/// The base metrics of a CVSS v3 vector (see [`cvss_v3_metrics_model`]).
pub fn cvss_v3_metrics(vector: &str) -> (r: Option<CvssV3Metrics>)
    ensures
        r == cvss_v3_metrics_model(vector@),
{
    let chars = chars_of(vector);
    let parts = split_vector(&chars);
    let ghost model = parts@.map_values(|v: Vec<char>| v@);
    let (scope_is_u_or_c, scope_changed) = match find_metric(&parts, "S") {
        Some(s) => (spells(&s, "U") || spells(&s, "C"), spells(&s, "C")),
        None => (true, false),
    };
    proof {
        reveal_strlit("U");
        reveal_strlit("C");
        assert("U"@[0] == 'U' && "C"@[0] == 'C');
        assert(scope_is_u_or_c == (vector_scope(model) == "U"@ || vector_scope(model) == "C"@));
        assert(scope_changed == (vector_scope(model) == "C"@));
    }
    let av = match find_metric(&parts, "AV") {
        Some(v) => attack_vector_value(&v),
        None => None,
    };
    let ac = match find_metric(&parts, "AC") {
        Some(v) => attack_complexity_value(&v),
        None => None,
    };
    let pr = match find_metric(&parts, "PR") {
        Some(v) => privileges_value(&v, scope_is_u_or_c),
        None => None,
    };
    let ui = match find_metric(&parts, "UI") {
        Some(v) => user_interaction_value(&v),
        None => None,
    };
    let c = match find_metric(&parts, "C") {
        Some(v) => impact_value(&v),
        None => None,
    };
    let i = match find_metric(&parts, "I") {
        Some(v) => impact_value(&v),
        None => None,
    };
    let a = match find_metric(&parts, "A") {
        Some(v) => impact_value(&v),
        None => None,
    };
    proof {
        let scope = vector_scope(model);
        assert(av == read_metric(model, "AV"@, |v: Seq<char>| attack_vector_of(v)));
        assert(ac == read_metric(model, "AC"@, |v: Seq<char>| attack_complexity_of(v)));
        assert(pr == read_metric(model, "PR"@, |v: Seq<char>| privileges_of(v, scope)));
        assert(ui == read_metric(model, "UI"@, |v: Seq<char>| user_interaction_of(v)));
        assert(c == read_metric(model, "C"@, |v: Seq<char>| impact_of(v)));
        assert(i == read_metric(model, "I"@, |v: Seq<char>| impact_of(v)));
        assert(a == read_metric(model, "A"@, |v: Seq<char>| impact_of(v)));
    }
    match (av, ac, pr, ui, c, i, a) {
        (Some(av), Some(ac), Some(pr), Some(ui), Some(c), Some(i), Some(a)) => Some(
            CvssV3Metrics {
                attack_vector: av,
                attack_complexity: ac,
                privileges_required: pr,
                user_interaction: ui,
                scope_changed,
                confidentiality: c,
                integrity: i,
                availability: a,
            },
        ),
        _ => None,
    }
}

} // verus!
