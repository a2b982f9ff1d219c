//! The PubGrub-style solver: versions and version constraints, terms and
//! incompatibilities, and the search that selects one version of every
//! package reachable from the root requirements.
//!
//! Versions and constraints are this library's own model: a version is a
//! release number with a stability, a constraint is a conjunction of
//! alternatives of version ranges.
use vstd::prelude::*;
use crate::repository::types::{stability_name, stability_rank, Stability};
use crate::resolver::{is_platform_package, platform_name, IncompatibilityCause, SetRelation, ResolutionError, ResolutionMode, ResolutionOptions};
use crate::resolution::contains_name;
use crate::text::{chars_of, join_strings, join_with, owned, push_all, push_str, radix_chars, radix_digits, str_eq, string_of, views};

verus! {

/// A version: release numbers and stability.
#[derive(Debug, Clone, Copy, PartialEq, Eq, Structural)]
pub struct Version {
    pub major: u64,
    pub minor: u64,
    pub patch: u64,
    pub stability: Stability,
}

/// Versions are ordered by major, minor and patch number, then by
/// stability: a pre-release comes before the release of the same numbers.
pub open spec fn version_lt(a: Version, b: Version) -> bool {
    if a.major != b.major {
        a.major < b.major
    } else if a.minor != b.minor {
        a.minor < b.minor
    } else if a.patch != b.patch {
        a.patch < b.patch
    } else {
        stability_rank(a.stability) < stability_rank(b.stability)
    }
}

/// The order of versions is a strict total order: irreflexive, asymmetric,
/// transitive, and any two different versions are ordered.
pub proof fn lemma_version_order(a: Version, b: Version, c: Version)
    ensures
        !version_lt(a, a),
        a != b ==> (version_lt(a, b) || version_lt(b, a)),
        version_lt(a, b) ==> !version_lt(b, a),
        version_lt(a, b) && version_lt(b, c) ==> version_lt(a, c),
{
    if a != b && !version_lt(a, b) && !version_lt(b, a) {
        assert(a.stability == b.stability) by {
            match a.stability {
                Stability::Dev => {},
                Stability::Alpha => {},
                Stability::Beta => {},
                Stability::Rc => {},
                Stability::Stable => {},
            }
            match b.stability {
                Stability::Dev => {},
                Stability::Alpha => {},
                Stability::Beta => {},
                Stability::Rc => {},
                Stability::Stable => {},
            }
        }
    }
}

impl Version {
    /// A stable version.
    pub fn new(major: u64, minor: u64, patch: u64) -> (r: Self)
        ensures
            r == (Version { major, minor, patch, stability: Stability::Stable }),
    {
        Version { major, minor, patch, stability: Stability::Stable }
    }

    /// A version with the given stability.
    pub fn with_stability(major: u64, minor: u64, patch: u64, stability: Stability) -> (r: Self)
        ensures
            r == (Version { major, minor, patch, stability }),
    {
        Version { major, minor, patch, stability }
    }

    /// Whether the version is a pre-release (not stable).
    pub fn is_prerelease(&self) -> (r: bool)
        ensures
            r == (self.stability != Stability::Stable),
    {
        match self.stability {
            Stability::Stable => false,
            _ => true,
        }
    }

    /// Whether this version comes before `other`.
    pub fn less_than(&self, other: &Version) -> (r: bool)
        ensures
            r == version_lt(*self, *other),
    {
        if self.major != other.major {
            self.major < other.major
        } else if self.minor != other.minor {
            self.minor < other.minor
        } else if self.patch != other.patch {
            self.patch < other.patch
        } else {
            self.stability.rank() < other.stability.rank()
        }
    }

    /// Whether this version is the same as `other`.
    pub fn same_as(&self, other: &Version) -> (r: bool)
        ensures
            r == (*self == *other),
    {
        proof {
            lemma_version_order(*self, *other, *other);
        }
        !self.less_than(other) && !other.less_than(self)
    }
}

/// A range of versions: from `low` (included) up to `high` (included where
/// `high_inclusive`, else excluded), or without upper end.
#[derive(Debug, Clone, Copy, PartialEq, Eq, Structural)]
pub struct VersionRange {
    pub low: Version,
    pub high: Option<Version>,
    pub high_inclusive: bool,
}

/// Whether `v` lies in the range.
pub open spec fn range_contains(r: VersionRange, v: Version) -> bool {
    &&& !version_lt(v, r.low)
    &&& match r.high {
        None => true,
        Some(h) => version_lt(v, h) || (r.high_inclusive && v == h),
    }
}

impl VersionRange {
    /// Whether `v` lies in the range.
    pub fn contains(&self, v: &Version) -> (r: bool)
        ensures
            r == range_contains(*self, *v),
    {
        if v.less_than(&self.low) {
            return false;
        }
        match &self.high {
            None => true,
            Some(h) => v.less_than(h) || (self.high_inclusive && v.same_as(h)),
        }
    }
}

/// A version constraint: every clause must hold, and a clause holds for a
/// version in one of its ranges. No clause: any version.
#[derive(Debug)]
pub struct VersionConstraint {
    pub clauses: Vec<Vec<VersionRange>>,
}

/// Whether some range of a clause holds `v`.
pub open spec fn clause_holds(clause: Seq<VersionRange>, v: Version) -> bool {
    exists|j: int| 0 <= j < clause.len() && range_contains(#[trigger] clause[j], v)
}

/// Whether every clause of a constraint holds for `v`.
pub open spec fn constraint_matches(c: Seq<Seq<VersionRange>>, v: Version) -> bool {
    forall|i: int| 0 <= i < c.len() ==> clause_holds(#[trigger] c[i], v)
}

impl View for VersionConstraint {
    type V = Seq<Seq<VersionRange>>;

    open spec fn view(&self) -> Seq<Seq<VersionRange>> {
        self.clauses@.map_values(|c: Vec<VersionRange>| c@)
    }
}

fn copy_ranges(r: &Vec<VersionRange>) -> (out: Vec<VersionRange>)
    ensures
        out@ == r@,
{
    let mut out: Vec<VersionRange> = Vec::new();
    let mut i: usize = 0;
    while i < r.len()
        invariant
            i <= r@.len(),
            out@ == r@.subrange(0, i as int),
        decreases r.len() - i,
    {
        out.push(r[i]);
        i = i + 1;
    }
    assert(r@.subrange(0, r@.len() as int) =~= r@);
    out
}

/// Appends the clauses of `from` to `to`.
fn append_clauses(to: &mut Vec<Vec<VersionRange>>, from: &Vec<Vec<VersionRange>>)
    ensures
        final(to)@.map_values(|c: Vec<VersionRange>| c@) == old(to)@.map_values(|c: Vec<VersionRange>| c@)
            + from@.map_values(|c: Vec<VersionRange>| c@),
{
    let ghost start = to@.map_values(|c: Vec<VersionRange>| c@);
    let mut i: usize = 0;
    while i < from.len()
        invariant
            i <= from@.len(),
            to@.map_values(|c: Vec<VersionRange>| c@) == start + from@.subrange(0, i as int).map_values(
                |c: Vec<VersionRange>| c@,
            ),
        decreases from.len() - i,
    {
        let ghost before = to@;
        to.push(copy_ranges(&from[i]));
        proof {
            assert(from@.subrange(0, i + 1).map_values(|c: Vec<VersionRange>| c@) =~= from@.subrange(
                0,
                i as int,
            ).map_values(|c: Vec<VersionRange>| c@).push(from@[i as int]@));
            assert(to@.map_values(|c: Vec<VersionRange>| c@) =~= before.map_values(|c: Vec<VersionRange>| c@).push(
                from@[i as int]@,
            ));
        }
        i = i + 1;
    }
    assert(from@.subrange(0, from@.len() as int) =~= from@);
}

impl VersionConstraint {
    /// Any version.
    pub fn any() -> (r: Self)
        ensures
            r@ == Seq::<Seq<VersionRange>>::empty(),
            forall|v: Version| constraint_matches(r@, v),
    {
        let r = VersionConstraint { clauses: Vec::new() };
        assert(r@ =~= Seq::<Seq<VersionRange>>::empty());
        r
    }

    /// Exactly the version `v`.
    pub fn exact(v: Version) -> (r: Self)
        ensures
            r@ == seq![seq![VersionRange { low: v, high: Some(v), high_inclusive: true }]],
            forall|w: Version| constraint_matches(r@, w) <==> w == v,
    {
        let range = VersionRange { low: v, high: Some(v), high_inclusive: true };
        let mut clause: Vec<VersionRange> = Vec::new();
        clause.push(range);
        let mut clauses: Vec<Vec<VersionRange>> = Vec::new();
        clauses.push(clause);
        let r = VersionConstraint { clauses };
        assert(r@ =~= seq![seq![range]]);
        assert forall|w: Version| constraint_matches(r@, w) <==> w == v by {
            lemma_version_order(w, v, v);
            if w == v {
                assert(range_contains(r@[0][0], w));
            }
            if constraint_matches(r@, w) {
                assert(clause_holds(r@[0], w));
            }
        }
        r
    }

    /// The versions from `low` (included) below `high` (excluded), such as
    /// `^1.0` for `1.0.0` to `2.0.0`.
    pub fn between(low: Version, high: Version) -> (r: Self)
        ensures
            r@ == seq![seq![VersionRange { low, high: Some(high), high_inclusive: false }]],
    {
        let mut clause: Vec<VersionRange> = Vec::new();
        clause.push(VersionRange { low, high: Some(high), high_inclusive: false });
        let mut clauses: Vec<Vec<VersionRange>> = Vec::new();
        clauses.push(clause);
        let r = VersionConstraint { clauses };
        assert(r@ =~= seq![seq![VersionRange { low, high: Some(high), high_inclusive: false }]]);
        r
    }

    /// The versions in any of `ranges`.
    pub fn any_of(ranges: &Vec<VersionRange>) -> (r: Self)
        ensures
            r@ == seq![ranges@],
    {
        let mut clauses: Vec<Vec<VersionRange>> = Vec::new();
        clauses.push(copy_ranges(ranges));
        let r = VersionConstraint { clauses };
        assert(r@ =~= seq![ranges@]);
        r
    }

    /// A copy of the constraint.
    pub fn duplicate(&self) -> (r: Self)
        ensures
            r@ == self@,
    {
        let mut clauses: Vec<Vec<VersionRange>> = Vec::new();
        append_clauses(&mut clauses, &self.clauses);
        let r = VersionConstraint { clauses };
        assert(r@ =~= self@);
        r
    }

    /// The versions both constraints allow.
    pub fn intersect(&self, other: &VersionConstraint) -> (r: Self)
        ensures
            r@ == self@ + other@,
            forall|v: Version| constraint_matches(r@, v) <==> constraint_matches(self@, v) && constraint_matches(other@, v),
    {
        let mut clauses: Vec<Vec<VersionRange>> = Vec::new();
        append_clauses(&mut clauses, &self.clauses);
        append_clauses(&mut clauses, &other.clauses);
        let r = VersionConstraint { clauses };
        assert(r@ =~= self@ + other@);
        assert forall|v: Version| constraint_matches(r@, v) <==> constraint_matches(self@, v) && constraint_matches(other@, v) by {
            if constraint_matches(r@, v) {
                assert forall|i: int| 0 <= i < self@.len() implies clause_holds(#[trigger] self@[i], v) by {
                    assert(r@[i] == self@[i]);
                }
                assert forall|i: int| 0 <= i < other@.len() implies clause_holds(#[trigger] other@[i], v) by {
                    assert(r@[self@.len() + i] == other@[i]);
                }
            }
            if constraint_matches(self@, v) && constraint_matches(other@, v) {
                assert forall|i: int| 0 <= i < r@.len() implies clause_holds(#[trigger] r@[i], v) by {
                    if i < self@.len() {
                        assert(r@[i] == self@[i]);
                    } else {
                        assert(r@[i] == other@[i - self@.len()]);
                    }
                }
            }
        }
        r
    }

    /// Whether the constraint allows any version (it has no clause).
    pub fn is_any(&self) -> (r: bool)
        ensures
            r == (self@.len() == 0),
    {
        self.clauses.len() == 0
    }

    /// Whether `v` satisfies the constraint.
    pub fn matches(&self, v: &Version) -> (r: bool)
        ensures
            r == constraint_matches(self@, *v),
    {
        let mut i: usize = 0;
        while i < self.clauses.len()
            invariant
                i <= self@.len(),
                forall|k: int| 0 <= k < i ==> clause_holds(#[trigger] self@[k], *v),
            decreases self.clauses.len() - i,
        {
            let clause = &self.clauses[i];
            let mut j: usize = 0;
            let mut found = false;
            while j < clause.len() && !found
                invariant
                    j <= clause@.len(),
                    clause@ == self@[i as int],
                    found ==> clause_holds(clause@, *v),
                    !found ==> forall|k: int| 0 <= k < j ==> !range_contains(#[trigger] clause@[k], *v),
                decreases clause.len() - j,
            {
                if clause[j].contains(v) {
                    found = true;
                }
                j = j + 1;
            }
            if !found {
                assert(!clause_holds(self@[i as int], *v));
                return false;
            }
            i = i + 1;
        }
        true
    }
}

/// The text of a version: `major.minor.patch`, with `-` and the stability
/// for a pre-release.
pub open spec fn version_text(v: Version) -> Seq<char> {
    radix_digits(v.major as nat, 10) + "."@ + radix_digits(v.minor as nat, 10) + "."@ + radix_digits(v.patch as nat, 10)
        + if v.stability == Stability::Stable {
        Seq::empty()
    } else {
        "-"@ + stability_name(v.stability)
    }
}

/// The text of a range: `=v` for a single version, else `>=low` followed by
/// ` <high` or ` <=high` where it has an upper end.
pub open spec fn range_text(r: VersionRange) -> Seq<char> {
    if r.high == Some(r.low) && r.high_inclusive {
        "="@ + version_text(r.low)
    } else {
        ">="@ + version_text(r.low) + match r.high {
            None => Seq::empty(),
            Some(h) => (if r.high_inclusive {
                " <="@
            } else {
                " <"@
            }) + version_text(h),
        }
    }
}

/// The text of a clause: its ranges joined with ` || `.
pub open spec fn clause_text(c: Seq<VersionRange>) -> Seq<char> {
    join_with(c.map_values(|r: VersionRange| range_text(r)), " || "@)
}

/// The text of a constraint: `*` for any version, else its clauses joined
/// with `, `.
pub open spec fn constraint_text(c: Seq<Seq<VersionRange>>) -> Seq<char> {
    if c.len() == 0 {
        "*"@
    } else {
        join_with(c.map_values(|cl: Seq<VersionRange>| clause_text(cl)), ", "@)
    }
}

impl Version {
    /// The text of the version.
    pub fn to_string(&self) -> (r: String)
        ensures
            r@ == version_text(*self),
    {
        let mut out: Vec<char> = Vec::new();
        push_all(&mut out, radix_chars(self.major as u128, 10).as_slice());
        push_str(&mut out, ".");
        push_all(&mut out, radix_chars(self.minor as u128, 10).as_slice());
        push_str(&mut out, ".");
        push_all(&mut out, radix_chars(self.patch as u128, 10).as_slice());
        match self.stability {
            Stability::Stable => {},
            _ => {
                push_str(&mut out, "-");
                let name = self.stability.to_string();
                push_str(&mut out, name.as_str());
            },
        }
        proof {
            reveal_strlit(".");
            reveal_strlit("-");
        }
        assert(out@ =~= version_text(*self));
        string_of(out.as_slice())
    }
}

impl VersionRange {
    /// The text of the range.
    pub fn to_string(&self) -> (r: String)
        ensures
            r@ == range_text(*self),
    {
        let mut out: Vec<char> = Vec::new();
        let single = match &self.high {
            Some(h) => self.high_inclusive && h.same_as(&self.low),
            None => false,
        };
        if single {
            push_str(&mut out, "=");
            push_str(&mut out, self.low.to_string().as_str());
        } else {
            push_str(&mut out, ">=");
            push_str(&mut out, self.low.to_string().as_str());
            match &self.high {
                None => {},
                Some(h) => {
                    if self.high_inclusive {
                        push_str(&mut out, " <=");
                    } else {
                        push_str(&mut out, " <");
                    }
                    push_str(&mut out, h.to_string().as_str());
                },
            }
        }
        assert(out@ =~= range_text(*self));
        string_of(out.as_slice())
    }
}

impl VersionConstraint {
    /// The text of the constraint.
    pub fn to_string(&self) -> (r: String)
        ensures
            r@ == constraint_text(self@),
    {
        if self.clauses.len() == 0 {
            return owned("*");
        }
        let mut texts: Vec<String> = Vec::new();
        let mut i: usize = 0;
        while i < self.clauses.len()
            invariant
                i <= self@.len(),
                texts@.map_values(|s: String| s@) == self@.subrange(0, i as int).map_values(
                    |cl: Seq<VersionRange>| clause_text(cl),
                ),
            decreases self.clauses.len() - i,
        {
            let clause = &self.clauses[i];
            let mut parts: Vec<String> = Vec::new();
            let mut j: usize = 0;
            while j < clause.len()
                invariant
                    j <= clause@.len(),
                    parts@.map_values(|s: String| s@) == clause@.subrange(0, j as int).map_values(
                        |r: VersionRange| range_text(r),
                    ),
                decreases clause.len() - j,
            {
                let ghost before = parts@;
                parts.push(clause[j].to_string());
                proof {
                    assert(parts@.map_values(|s: String| s@) =~= before.map_values(|s: String| s@).push(
                        range_text(clause@[j as int]),
                    ));
                    assert(clause@.subrange(0, j + 1).map_values(|r: VersionRange| range_text(r)) =~= clause@.subrange(
                        0,
                        j as int,
                    ).map_values(|r: VersionRange| range_text(r)).push(range_text(clause@[j as int])));
                }
                j = j + 1;
            }
            let sep = chars_of(" || ");
            let joined = join_strings(parts.as_slice(), sep.as_slice());
            let ghost before = texts@;
            texts.push(string_of(joined.as_slice()));
            proof {
                assert(clause@.subrange(0, clause@.len() as int) =~= clause@);
                assert(clause@ == self@[i as int]);
                assert(texts@.map_values(|s: String| s@) =~= before.map_values(|s: String| s@).push(
                    clause_text(self@[i as int]),
                ));
                assert(self@.subrange(0, i + 1).map_values(|cl: Seq<VersionRange>| clause_text(cl)) =~= self@.subrange(
                    0,
                    i as int,
                ).map_values(|cl: Seq<VersionRange>| clause_text(cl)).push(clause_text(self@[i as int])));
            }
            i = i + 1;
        }
        assert(self@.subrange(0, self@.len() as int) =~= self@);
        let sep = chars_of(", ");
        let joined = join_strings(texts.as_slice(), sep.as_slice());
        string_of(joined.as_slice())
    }
}

/// A term: a package with a constraint, which must hold (positive) or must
/// not hold (negative).
#[derive(Debug)]
pub struct Term {
    pub package: String,
    pub constraint: VersionConstraint,
    pub positive: bool,
}

/// The contents of a term.
pub struct TermView {
    pub package: Seq<char>,
    pub constraint: Seq<Seq<VersionRange>>,
    pub positive: bool,
}

impl View for Term {
    type V = TermView;

    open spec fn view(&self) -> TermView {
        TermView { package: self.package@, constraint: self.constraint@, positive: self.positive }
    }
}

/// Whether `v` satisfies a term: it matches the constraint of a positive
/// term, and does not match that of a negative one.
pub open spec fn term_allows(t: TermView, v: Version) -> bool {
    constraint_matches(t.constraint, v) == t.positive
}

/// The text of a term: `package constraint`, inside `not(..)` when negative.
pub open spec fn term_text(t: TermView) -> Seq<char> {
    let body = t.package + " "@ + constraint_text(t.constraint);
    if t.positive {
        body
    } else {
        "not("@ + body + ")"@
    }
}

impl Term {
    /// A positive term.
    pub fn positive(package: &str, constraint: VersionConstraint) -> (r: Self)
        ensures
            r@ == (TermView { package: package@, constraint: constraint@, positive: true }),
    {
        Term { package: owned(package), constraint, positive: true }
    }

    /// A negative term.
    pub fn negative(package: &str, constraint: VersionConstraint) -> (r: Self)
        ensures
            r@ == (TermView { package: package@, constraint: constraint@, positive: false }),
    {
        Term { package: owned(package), constraint, positive: false }
    }

    /// The term with the other sign.
    pub fn negate(&self) -> (r: Self)
        ensures
            r@ == (TermView { positive: !self.positive, ..self@ }),
    {
        Term { package: owned(self.package.as_str()), constraint: self.constraint.duplicate(), positive: !self.positive }
    }

    /// Whether `version` satisfies the term.
    pub fn satisfies(&self, version: &Version) -> (r: bool)
        ensures
            r == term_allows(self@, *version),
    {
        let m = self.constraint.matches(version);
        if self.positive {
            m
        } else {
            !m
        }
    }

    /// A copy of the term.
    pub fn duplicate(&self) -> (r: Self)
        ensures
            r@ == self@,
    {
        Term { package: owned(self.package.as_str()), constraint: self.constraint.duplicate(), positive: self.positive }
    }

    /// The text of the term.
    pub fn to_string(&self) -> (r: String)
        ensures
            r@ == term_text(self@),
    {
        let mut out: Vec<char> = Vec::new();
        if !self.positive {
            push_str(&mut out, "not(");
        }
        push_str(&mut out, self.package.as_str());
        push_str(&mut out, " ");
        push_str(&mut out, self.constraint.to_string().as_str());
        if !self.positive {
            push_str(&mut out, ")");
        }
        assert(out@ =~= term_text(self@));
        string_of(out.as_slice())
    }
}

/// An incompatibility: terms that cannot all hold at once.
#[derive(Debug)]
pub struct Incompatibility {
    pub id: u64,
    pub terms: Vec<Term>,
    pub cause: IncompatibilityCause,
}

/// The contents of a list of terms.
pub open spec fn term_views(t: Seq<Term>) -> Seq<TermView> {
    t.map_values(|x: Term| x@)
}

/// The text of an incompatibility, by its cause.
pub open spec fn incompatibility_text(terms: Seq<TermView>, cause: IncompatibilityCause) -> Seq<char> {
    let texts = terms.map_values(|t: TermView| term_text(t));
    if terms.len() == 0 {
        "impossible"@
    } else {
        match cause {
            IncompatibilityCause::Root => term_text(terms[0]) + " is required"@,
            IncompatibilityCause::Dependency => if terms.len() == 2 {
                term_text(terms[0]) + " depends on "@ + term_text(terms[1])
            } else {
                "["@ + join_with(texts, ", "@) + "]"@
            },
            IncompatibilityCause::NoVersions => "no versions of "@ + terms[0].package + " match "@ + constraint_text(
                terms[0].constraint,
            ),
            IncompatibilityCause::ConflictResolution { .. } => "conflict: "@ + join_with(texts, " and "@),
            IncompatibilityCause::PackageNotFound => terms[0].package + " not found"@,
        }
    }
}

/// The explanation given for a failed resolution ending at an
/// incompatibility.
pub open spec fn explanation_text(terms: Seq<TermView>, cause: IncompatibilityCause) -> Seq<char> {
    "Resolution failed:\n  "@ + incompatibility_text(terms, cause) + "\n"@
}

impl Incompatibility {
    /// The root requires `package` within `constraint`.
    pub fn root(id: u64, package: &str, constraint: VersionConstraint) -> (r: Self)
        ensures
            r.id == id,
            r.cause == IncompatibilityCause::Root,
            term_views(r.terms@) == seq![TermView { package: package@, constraint: constraint@, positive: false }],
    {
        let mut terms: Vec<Term> = Vec::new();
        terms.push(Term::negative(package, constraint));
        let r = Incompatibility { id, terms, cause: IncompatibilityCause::Root };
        assert(term_views(r.terms@) =~= seq![TermView { package: package@, constraint: constraint@, positive: false }]);
        r
    }

    /// `depender` within `depender_constraint` requires `dependency` within
    /// `dependency_constraint`.
    pub fn dependency(
        id: u64,
        depender: &str,
        depender_constraint: VersionConstraint,
        dependency: &str,
        dependency_constraint: VersionConstraint,
    ) -> (r: Self)
        ensures
            r.id == id,
            r.cause == IncompatibilityCause::Dependency,
            term_views(r.terms@) == seq![
                TermView { package: depender@, constraint: depender_constraint@, positive: true },
                TermView { package: dependency@, constraint: dependency_constraint@, positive: false },
            ],
    {
        let mut terms: Vec<Term> = Vec::new();
        terms.push(Term::positive(depender, depender_constraint));
        terms.push(Term::negative(dependency, dependency_constraint));
        let r = Incompatibility { id, terms, cause: IncompatibilityCause::Dependency };
        assert(term_views(r.terms@) =~= seq![
            TermView { package: depender@, constraint: depender_constraint@, positive: true },
            TermView { package: dependency@, constraint: dependency_constraint@, positive: false },
        ]);
        r
    }

    /// No version of `package` within `constraint` can be chosen.
    pub fn no_versions(id: u64, package: &str, constraint: VersionConstraint) -> (r: Self)
        ensures
            r.id == id,
            r.cause == IncompatibilityCause::NoVersions,
            term_views(r.terms@) == seq![TermView { package: package@, constraint: constraint@, positive: true }],
    {
        let mut terms: Vec<Term> = Vec::new();
        terms.push(Term::positive(package, constraint));
        let r = Incompatibility { id, terms, cause: IncompatibilityCause::NoVersions };
        assert(term_views(r.terms@) =~= seq![TermView { package: package@, constraint: constraint@, positive: true }]);
        r
    }

    /// The packages its terms name, in order.
    pub fn packages(&self) -> (r: Vec<String>)
        ensures
            views(r@) == term_views(self.terms@).map_values(|t: TermView| t.package),
    {
        let mut out: Vec<String> = Vec::new();
        let mut i: usize = 0;
        while i < self.terms.len()
            invariant
                i <= self.terms@.len(),
                views(out@) == term_views(self.terms@.subrange(0, i as int)).map_values(|t: TermView| t.package),
            decreases self.terms.len() - i,
        {
            let ghost before = out@;
            out.push(owned(self.terms[i].package.as_str()));
            proof {
                assert(views(out@) =~= views(before).push(self.terms@[i as int].package@));
                assert(term_views(self.terms@.subrange(0, i + 1)).map_values(|t: TermView| t.package)
                    =~= term_views(self.terms@.subrange(0, i as int)).map_values(|t: TermView| t.package).push(
                    self.terms@[i as int].package@,
                ));
            }
            i = i + 1;
        }
        assert(self.terms@.subrange(0, self.terms@.len() as int) =~= self.terms@);
        out
    }

    /// Whether the assignments satisfy every term.
    pub fn is_satisfied_by(&self, assignments: &Vec<Assignment>) -> (r: bool)
        ensures
            r == violated(self.terms@, assignments@),
    {
        let mut k: usize = 0;
        while k < self.terms.len()
            invariant
                k <= self.terms@.len(),
                forall|j: int| 0 <= j < k ==> term_satisfied(#[trigger] self.terms@[j]@, assignments@),
            decreases self.terms.len() - k,
        {
            let sat = match find_assigned(assignments, self.terms[k].package.as_str()) {
                Some((v, _)) => self.terms[k].satisfies(&v),
                None => false,
            };
            if !sat {
                assert(!term_satisfied(self.terms@[k as int]@, assignments@));
                return false;
            }
            k = k + 1;
        }
        true
    }

    /// The index of the first term the assignments do not satisfy.
    pub fn find_unsatisfied_term(&self, assignments: &Vec<Assignment>) -> (r: Option<usize>)
        ensures
            r matches Some(k) ==> k < self.terms@.len() && !term_satisfied(self.terms@[k as int]@, assignments@)
                && forall|j: int| 0 <= j < k ==> term_satisfied(#[trigger] self.terms@[j]@, assignments@),
            r is None ==> violated(self.terms@, assignments@),
    {
        let mut k: usize = 0;
        while k < self.terms.len()
            invariant
                k <= self.terms@.len(),
                forall|j: int| 0 <= j < k ==> term_satisfied(#[trigger] self.terms@[j]@, assignments@),
            decreases self.terms.len() - k,
        {
            let sat = match find_assigned(assignments, self.terms[k].package.as_str()) {
                Some((v, _)) => self.terms[k].satisfies(&v),
                None => false,
            };
            if !sat {
                return Some(k);
            }
            k = k + 1;
        }
        None
    }
    /// The text of the incompatibility.
    pub fn to_string(&self) -> (r: String)
        ensures
            r@ == incompatibility_text(term_views(self.terms@), self.cause),
    {
        let ghost tv = term_views(self.terms@);
        if self.terms.len() == 0 {
            return owned("impossible");
        }
        let mut out: Vec<char> = Vec::new();
        match self.cause {
            IncompatibilityCause::Root => {
                push_str(&mut out, self.terms[0].to_string().as_str());
                push_str(&mut out, " is required");
            },
            IncompatibilityCause::NoVersions => {
                push_str(&mut out, "no versions of ");
                push_str(&mut out, self.terms[0].package.as_str());
                push_str(&mut out, " match ");
                push_str(&mut out, self.terms[0].constraint.to_string().as_str());
            },
            IncompatibilityCause::PackageNotFound => {
                push_str(&mut out, self.terms[0].package.as_str());
                push_str(&mut out, " not found");
            },
            IncompatibilityCause::Dependency => {
                if self.terms.len() == 2 {
                    push_str(&mut out, self.terms[0].to_string().as_str());
                    push_str(&mut out, " depends on ");
                    push_str(&mut out, self.terms[1].to_string().as_str());
                } else {
                    push_str(&mut out, "[");
                    let texts = self.term_texts();
                    let sep = chars_of(", ");
                    push_all(&mut out, join_strings(texts.as_slice(), sep.as_slice()).as_slice());
                    push_str(&mut out, "]");
                }
            },
            IncompatibilityCause::ConflictResolution { .. } => {
                push_str(&mut out, "conflict: ");
                let texts = self.term_texts();
                let sep = chars_of(" and ");
                push_all(&mut out, join_strings(texts.as_slice(), sep.as_slice()).as_slice());
            },
        }
        assert(out@ =~= incompatibility_text(tv, self.cause));
        string_of(out.as_slice())
    }

    fn term_texts(&self) -> (r: Vec<String>)
        ensures
            r@.map_values(|s: String| s@) == term_views(self.terms@).map_values(|t: TermView| term_text(t)),
    {
        let mut texts: Vec<String> = Vec::new();
        let mut i: usize = 0;
        while i < self.terms.len()
            invariant
                i <= self.terms@.len(),
                texts@.map_values(|s: String| s@) == term_views(self.terms@.subrange(0, i as int)).map_values(
                    |t: TermView| term_text(t),
                ),
            decreases self.terms.len() - i,
        {
            let ghost before = texts@;
            texts.push(self.terms[i].to_string());
            proof {
                assert(texts@.map_values(|s: String| s@) =~= before.map_values(|s: String| s@).push(
                    term_text(self.terms@[i as int]@),
                ));
                assert(term_views(self.terms@.subrange(0, i + 1)).map_values(|t: TermView| term_text(t))
                    =~= term_views(self.terms@.subrange(0, i as int)).map_values(|t: TermView| term_text(t)).push(
                    term_text(self.terms@[i as int]@),
                ));
            }
            i = i + 1;
        }
        assert(self.terms@.subrange(0, self.terms@.len() as int) =~= self.terms@);
        texts
    }

    /// The explanation of a failed resolution ending here.
    pub fn explain(&self) -> (r: String)
        ensures
            r@ == explanation_text(term_views(self.terms@), self.cause),
    {
        let mut out: Vec<char> = Vec::new();
        push_str(&mut out, "Resolution failed:\n  ");
        push_str(&mut out, self.to_string().as_str());
        push_str(&mut out, "\n");
        assert(out@ =~= explanation_text(term_views(self.terms@), self.cause));
        string_of(out.as_slice())
    }
}

/// The contents of a list of requirements: names with constraints.
pub open spec fn requirement_list(r: Seq<(String, VersionConstraint)>) -> Seq<(Seq<char>, Seq<Seq<VersionRange>>)> {
    r.map_values(|x: (String, VersionConstraint)| (x.0@, x.1@))
}

/// A source of packages for the solver, implemented by its users. Nothing
/// is assumed of its answers: the solver records what it was told.
pub trait PackageProvider {
    /// Get available versions for a package.
    fn versions(&self, package: &str) -> Vec<Version>;

    /// Get dependencies for a specific version of a package.
    fn dependencies(&self, package: &str, version: &Version) -> Vec<(String, VersionConstraint)>;

    /// Check if package exists.
    fn package_exists(&self, package: &str) -> bool;
}

/// A package given a version during the search: the decision level at
/// which it was chosen and the requirements the provider gave for it.
#[derive(Debug)]
pub struct Assignment {
    /// The package.
    pub package: String,
    /// The assigned version.
    pub version: Version,
    /// Decision level (1 for the root, higher for later decisions).
    pub decision_level: u64,
    /// Whether the version was chosen (a decision) or forced (a derivation).
    pub is_decision: bool,
    /// The incompatibility that forced a derivation.
    pub cause: Option<u64>,
    /// The requirements the provider gave for this version.
    pub requirements: Vec<(String, VersionConstraint)>,
}

/// The version assigned to a package (its last assignment), if any.
pub open spec fn assigned_version(a: Seq<Assignment>, name: Seq<char>) -> Option<Version>
    decreases a.len(),
{
    if a.len() == 0 {
        None
    } else if a.last().package@ == name {
        Some(a.last().version)
    } else {
        assigned_version(a.drop_last(), name)
    }
}

/// Whether the assignments satisfy a term: its package has a version that
/// the term allows.
pub open spec fn term_satisfied(t: TermView, a: Seq<Assignment>) -> bool {
    match assigned_version(a, t.package) {
        Some(v) => term_allows(t, v),
        None => false,
    }
}

/// Whether the assignments satisfy every term of an incompatibility, which
/// is then violated.
pub open spec fn violated(terms: Seq<Term>, a: Seq<Assignment>) -> bool {
    forall|k: int| 0 <= k < terms.len() ==> term_satisfied(#[trigger] terms[k]@, a)
}

proof fn lemma_assigned_none(a: Seq<Assignment>, name: Seq<char>, i: int)
    requires
        assigned_version(a, name) is None,
        0 <= i < a.len(),
    ensures
        a[i].package@ != name,
    decreases a.len(),
{
    if i < a.len() - 1 {
        lemma_assigned_none(a.drop_last(), name, i);
    }
}

proof fn lemma_assigned_unique(a: Seq<Assignment>, i: int)
    requires
        0 <= i < a.len(),
        forall|x: int, y: int| 0 <= x < y < a.len() ==> a[x].package@ != a[y].package@,
    ensures
        assigned_version(a, a[i].package@) == Some(a[i].version),
    decreases a.len(),
{
    if i < a.len() - 1 {
        lemma_assigned_unique(a.drop_last(), i);
    }
}

fn find_assigned(a: &Vec<Assignment>, name: &str) -> (r: Option<(Version, u64)>)
    ensures
        r matches Some(x) ==> assigned_version(a@, name@) == Some(x.0),
        r is None ==> assigned_version(a@, name@) is None,
{
    let mut i: usize = a.len();
    assert(a@.subrange(0, a@.len() as int) =~= a@);
    while i > 0
        invariant
            i <= a@.len(),
            assigned_version(a@, name@) == assigned_version(a@.subrange(0, i as int), name@),
        decreases i,
    {
        proof {
            assert(a@.subrange(0, i as int).drop_last() =~= a@.subrange(0, i - 1));
        }
        if str_eq(a[i - 1].package.as_str(), name) {
            return Some((a[i - 1].version, a[i - 1].decision_level));
        }
        i = i - 1;
    }
    assert(a@.subrange(0, 0) =~= Seq::<Assignment>::empty());
    None
}

/// Unit propagation over the assignments: for each incompatibility with
/// all terms but one unassigned one satisfied, the negation of that term is
/// derived (positive derivations in `positive`, negative ones in
/// `negative`); the first violated incompatibility is returned. Derivations
/// change no assignment, so one pass over the incompatibilities finds every
/// derivation and violation that further passes would find again.
fn propagate(
    incs: &Vec<Incompatibility>,
    a: &Vec<Assignment>,
    positive: &mut Vec<(String, VersionConstraint)>,
    negative: &mut Vec<(String, VersionConstraint)>,
) -> (r: Option<usize>)
    ensures
        r is None ==> forall|i: int| 0 <= i < incs@.len() ==> !violated(#[trigger] incs@[i].terms@, a@),
        r matches Some(i) ==> i < incs@.len() && violated(incs@[i as int].terms@, a@),
{
    let mut i: usize = 0;
    while i < incs.len()
        invariant
            i <= incs@.len(),
            forall|j: int| 0 <= j < i ==> !violated(#[trigger] incs@[j].terms@, a@),
        decreases incs.len() - i,
    {
        let terms = &incs[i].terms;
        let mut sat: usize = 0;
        let mut open: Option<usize> = None;
        let mut k: usize = 0;
        while k < terms.len()
            invariant
                k <= terms@.len(),
                sat <= k,
                terms@ == incs@[i as int].terms@,
                open matches Some(u) ==> u < terms@.len(),
                (sat == k) <==> (forall|j: int| 0 <= j < k ==> term_satisfied(#[trigger] terms@[j]@, a@)),
            decreases terms.len() - k,
        {
            let t = &terms[k];
            let satisfied = match find_assigned(a, t.package.as_str()) {
                Some((v, _)) => t.satisfies(&v),
                None => {
                    open = Some(k);
                    false
                },
            };
            proof {
                assert(satisfied == term_satisfied(terms@[k as int]@, a@));
                if sat == k + 1 {
                    assert forall|j: int| 0 <= j < k + 1 implies term_satisfied(#[trigger] terms@[j]@, a@) by {
                        if j < k {
                        }
                    }
                }
            }
            if satisfied {
                sat = sat + 1;
            }
            proof {
                if !satisfied {
                    assert(!(forall|j: int| 0 <= j < k + 1 ==> term_satisfied(#[trigger] terms@[j]@, a@))) by {
                        assert(!term_satisfied(terms@[k as int]@, a@));
                    }
                } else {
                    assert((sat == k + 1) <==> (forall|j: int| 0 <= j < k + 1 ==> term_satisfied(#[trigger] terms@[j]@, a@))) by {
                        if sat == k + 1 {
                            assert forall|j: int| 0 <= j < k + 1 implies term_satisfied(#[trigger] terms@[j]@, a@) by {
                                if j < k as int {
                                    assert(sat - 1 == k);
                                }
                            }
                        }
                    }
                }
            }
            k = k + 1;
        }
        if terms.len() > 0 && sat == terms.len() - 1 {
            match open {
                Some(u) => {
                    let t = &terms[u];
                    if t.positive {
                        negative.push((owned(t.package.as_str()), t.constraint.duplicate()));
                    } else {
                        positive.push((owned(t.package.as_str()), t.constraint.duplicate()));
                    }
                },
                None => {},
            }
        }
        if sat == terms.len() {
            return Some(i);
        }
        i = i + 1;
    }
    None
}

/// The constraint allowing exactly `v`.
pub open spec fn exact_view(v: Version) -> Seq<Seq<VersionRange>> {
    seq![seq![VersionRange { low: v, high: Some(v), high_inclusive: true }]]
}

proof fn lemma_exact_view(v: Version, w: Version)
    ensures
        constraint_matches(exact_view(v), w) <==> w == v,
{
    lemma_version_order(w, v, v);
    let r = exact_view(v);
    if w == v {
        assert(range_contains(r[0][0], w));
    }
    if constraint_matches(r, w) {
        assert(clause_holds(r[0], w));
    }
}

/// Whether the resolution mode ranks `a` before `b`: highest
/// first, lowest first, or stable versions first and then highest first.
pub open spec fn ranks_before(mode: ResolutionMode, a: Version, b: Version) -> bool {
    match mode {
        ResolutionMode::PreferHighest => version_lt(b, a),
        ResolutionMode::PreferLowest => version_lt(a, b),
        ResolutionMode::PreferStable => if (a.stability == Stability::Stable) != (b.stability == Stability::Stable) {
            a.stability == Stability::Stable
        } else {
            version_lt(b, a)
        },
    }
}

proof fn lemma_ranks_before(mode: ResolutionMode, a: Version, b: Version, c: Version)
    ensures
        a != b ==> ranks_before(mode, a, b) || ranks_before(mode, b, a),
        ranks_before(mode, a, b) && ranks_before(mode, b, c) ==> ranks_before(mode, a, c),
{
    lemma_version_order(a, b, c);
    lemma_version_order(c, b, a);
    lemma_version_order(b, a, c);
    lemma_version_order(a, c, b);
    lemma_version_order(b, c, a);
    lemma_version_order(c, a, b);
}

fn ranks_first(mode: ResolutionMode, a: &Version, b: &Version) -> (r: bool)
    ensures
        r == ranks_before(mode, *a, *b),
{
    match mode {
        ResolutionMode::PreferHighest => b.less_than(a),
        ResolutionMode::PreferLowest => a.less_than(b),
        ResolutionMode::PreferStable => {
            let a_stable = !a.is_prerelease();
            let b_stable = !b.is_prerelease();
            if a_stable != b_stable {
                a_stable
            } else {
                b.less_than(a)
            }
        },
    }
}

/// Whether a version may be chosen under a constraint and a minimum
/// stability.
pub open spec fn eligible(v: Version, c: Seq<Seq<VersionRange>>, min: Stability) -> bool {
    constraint_matches(c, v) && stability_rank(v.stability) >= stability_rank(min)
}

/// The first of the eligible versions in the order of the resolution mode.
fn select_version(versions: &Vec<Version>, c: &VersionConstraint, mode: ResolutionMode, min: Stability) -> (r: Option<Version>)
    ensures
        r is None ==> forall|i: int| 0 <= i < versions@.len() ==> !eligible(#[trigger] versions@[i], c@, min),
        r matches Some(v) ==> versions@.contains(v) && eligible(v, c@, min) && forall|i: int|
            0 <= i < versions@.len() && eligible(#[trigger] versions@[i], c@, min) ==> versions@[i] == v
                || ranks_before(mode, v, versions@[i]),
{
    let mut best: Option<Version> = None;
    let mut i: usize = 0;
    while i < versions.len()
        invariant
            i <= versions@.len(),
            best is None ==> forall|j: int| 0 <= j < i ==> !eligible(#[trigger] versions@[j], c@, min),
            best matches Some(b) ==> versions@.contains(b) && eligible(b, c@, min) && forall|j: int|
                0 <= j < i && eligible(#[trigger] versions@[j], c@, min) ==> versions@[j] == b || ranks_before(mode, b, versions@[j]),
        decreases versions.len() - i,
    {
        let v = versions[i];
        if c.matches(&v) && v.stability.is_at_least(&min) {
            match best {
                None => {
                    best = Some(v);
                },
                Some(b) => {
                    if ranks_first(mode, &v, &b) {
                        proof {
                            assert forall|j: int| 0 <= j < i + 1 && eligible(#[trigger] versions@[j], c@, min) implies versions@[j] == v
                                || ranks_before(mode, v, versions@[j]) by {
                                if j < i && versions@[j] != b {
                                    lemma_ranks_before(mode, v, b, versions@[j]);
                                }
                            }
                        }
                        best = Some(v);
                    } else {
                        proof {
                            lemma_ranks_before(mode, v, b, v);
                        }
                    }
                },
            }
        }
        i = i + 1;
    }
    best
}

/// The intersection of the positive derivations for a package.
fn effective_constraint(positive: &Vec<(String, VersionConstraint)>, name: &str) -> (r: VersionConstraint)
    ensures
        forall|v: Version| constraint_matches(r@, v) <==> (forall|k: int| 0 <= k < positive@.len() && (#[trigger] positive@[k]).0@ == name@
            ==> constraint_matches(positive@[k].1@, v)),
{
    let mut c = VersionConstraint::any();
    let mut i: usize = 0;
    while i < positive.len()
        invariant
            i <= positive@.len(),
            forall|v: Version| constraint_matches(c@, v) <==> (forall|k: int| 0 <= k < i && (#[trigger] positive@[k]).0@ == name@
                ==> constraint_matches(positive@[k].1@, v)),
        decreases positive.len() - i,
    {
        if str_eq(positive[i].0.as_str(), name) {
            let next = c.intersect(&positive[i].1);
            c = next;
        }
        i = i + 1;
    }
    c
}

/// The first known package without a version.
fn first_unassigned(known: &Vec<String>, a: &Vec<Assignment>) -> (r: Option<usize>)
    ensures
        r matches Some(i) ==> i < known@.len() && assigned_version(a@, known@[i as int]@) is None,
        r is None ==> forall|i: int| 0 <= i < known@.len() ==> assigned_version(a@, (#[trigger] known@[i])@) is Some,
{
    let mut i: usize = 0;
    while i < known.len()
        invariant
            i <= known@.len(),
            forall|j: int| 0 <= j < i ==> assigned_version(a@, (#[trigger] known@[j])@) is Some,
        decreases known.len() - i,
    {
        if find_assigned(a, known[i].as_str()).is_none() {
            return Some(i);
        }
        i = i + 1;
    }
    None
}

/// The level to backtrack to for a conflict: one below the highest level at
/// which a package of the conflict was decided; `None` where no level has one.
fn conflict_level(terms: &Vec<Term>, a: &Vec<Assignment>, level: u64) -> (r: Option<u64>)
    ensures
        r matches Some(l) ==> l <= level,
{
    let mut current: u64 = level;
    loop
        invariant
            current <= level,
        decreases current,
    {
        let mut k: usize = 0;
        while k < terms.len()
            invariant
                current <= level,
            decreases terms.len() - k,
        {
            match find_assigned(a, terms[k].package.as_str()) {
                Some((_, l)) => {
                    if l == current {
                        return Some(if current > 0 { current - 1 } else { 0 });
                    }
                },
                None => {},
            }
            k = k + 1;
        }
        if current == 0 {
            return None;
        }
        current = current - 1;
    }
}

/// Undo the assignments made after decision level `to`.
fn backtrack(a: &mut Vec<Assignment>, level: &mut u64, to: u64)
    ensures
        final(a)@.len() <= old(a)@.len(),
        final(a)@ == old(a)@.subrange(0, final(a)@.len() as int),
        *final(level) <= *old(level),
{
    if *level > to {
        while a.len() > 0 && a[a.len() - 1].decision_level > to
            invariant
                a@.len() <= old(a)@.len(),
                a@ == old(a)@.subrange(0, a@.len() as int),
            decreases a.len(),
        {
            a.pop();
        }
        *level = to;
    }
}

fn copy_requirements(r: &Vec<(String, VersionConstraint)>) -> (out: Vec<(String, VersionConstraint)>)
    ensures
        requirement_list(out@) == requirement_list(r@),
{
    let mut out: Vec<(String, VersionConstraint)> = Vec::new();
    let mut i: usize = 0;
    while i < r.len()
        invariant
            i <= r@.len(),
            requirement_list(out@) == requirement_list(r@.subrange(0, i as int)),
        decreases r.len() - i,
    {
        let ghost before = out@;
        out.push((owned(r[i].0.as_str()), r[i].1.duplicate()));
        proof {
            assert(requirement_list(out@) =~= requirement_list(before).push((r@[i as int].0@, r@[i as int].1@)));
            assert(requirement_list(r@.subrange(0, i + 1)) =~= requirement_list(r@.subrange(0, i as int)).push(
                (r@[i as int].0@, r@[i as int].1@),
            ));
        }
        i = i + 1;
    }
    assert(r@.subrange(0, r@.len() as int) =~= r@);
    out
}

/// Whether an incompatibility says that the root requires `name` within `c`.
pub open spec fn requires_root(incs: Seq<Incompatibility>, name: Seq<char>, c: Seq<Seq<VersionRange>>) -> bool {
    exists|i: int|
        0 <= i < incs.len() && term_views(#[trigger] incs[i].terms@) == seq![
            TermView { package: name, constraint: c, positive: false },
        ]
}

/// Whether an incompatibility says that version `v` of `p` requires `d`
/// within `c`.
pub open spec fn requires_dependency(
    incs: Seq<Incompatibility>,
    p: Seq<char>,
    v: Version,
    d: Seq<char>,
    c: Seq<Seq<VersionRange>>,
) -> bool {
    exists|i: int|
        0 <= i < incs.len() && term_views(#[trigger] incs[i].terms@) == seq![
            TermView { package: p, constraint: exact_view(v), positive: true },
            TermView { package: d, constraint: c, positive: false },
        ]
}

/// Whether every requirement of an assignment that is no platform
/// requirement is known and recorded as an incompatibility.
pub open spec fn requirements_recorded(incs: Seq<Incompatibility>, known: Seq<Seq<char>>, asg: Assignment) -> bool {
    let reqs = requirement_list(asg.requirements@);
    forall|j: int|
        0 <= j < reqs.len() && !platform_name((#[trigger] reqs[j]).0) ==> requires_dependency(
            incs,
            asg.package@,
            asg.version,
            reqs[j].0,
            reqs[j].1,
        ) && known.contains(reqs[j].0)
}

proof fn lemma_grown(old_i: Seq<Incompatibility>, new_i: Seq<Incompatibility>, old_k: Seq<Seq<char>>, new_k: Seq<Seq<char>>)
    requires
        old_i.len() <= new_i.len(),
        forall|i: int| 0 <= i < old_i.len() ==> new_i[i] == old_i[i],
        old_k.len() <= new_k.len(),
        forall|i: int| 0 <= i < old_k.len() ==> new_k[i] == old_k[i],
    ensures
        forall|n: Seq<char>, c: Seq<Seq<VersionRange>>| requires_root(old_i, n, c) ==> #[trigger] requires_root(new_i, n, c),
        forall|n: Seq<char>| old_k.contains(n) ==> #[trigger] new_k.contains(n),
        forall|p: Seq<char>, v: Version, d: Seq<char>, c: Seq<Seq<VersionRange>>|
            requires_dependency(old_i, p, v, d, c) ==> #[trigger] requires_dependency(new_i, p, v, d, c),
        forall|asg: Assignment| requirements_recorded(old_i, old_k, asg) ==> #[trigger] requirements_recorded(new_i, new_k, asg),
{
    assert forall|n: Seq<char>, c: Seq<Seq<VersionRange>>| requires_root(old_i, n, c) implies #[trigger] requires_root(new_i, n, c) by {
        let i = choose|i: int|
            0 <= i < old_i.len() && term_views(#[trigger] old_i[i].terms@) == seq![
                TermView { package: n, constraint: c, positive: false },
            ];
        assert(new_i[i] == old_i[i]);
    }
    assert forall|p: Seq<char>, v: Version, d: Seq<char>, c: Seq<Seq<VersionRange>>|
        requires_dependency(old_i, p, v, d, c) implies #[trigger] requires_dependency(new_i, p, v, d, c) by {
        let i = choose|i: int|
            0 <= i < old_i.len() && term_views(#[trigger] old_i[i].terms@) == seq![
                TermView { package: p, constraint: exact_view(v), positive: true },
                TermView { package: d, constraint: c, positive: false },
            ];
        assert(new_i[i] == old_i[i]);
    }
    assert forall|n: Seq<char>| old_k.contains(n) implies #[trigger] new_k.contains(n) by {
        let i = choose|i: int| 0 <= i < old_k.len() && old_k[i] == n;
        assert(new_k[i] == old_k[i]);
    }
    assert forall|asg: Assignment| requirements_recorded(old_i, old_k, asg) implies #[trigger] requirements_recorded(new_i, new_k, asg) by {
        let reqs = requirement_list(asg.requirements@);
        assert forall|j: int| 0 <= j < reqs.len() && !platform_name((#[trigger] reqs[j]).0) implies requires_dependency(
            new_i,
            asg.package@,
            asg.version,
            reqs[j].0,
            reqs[j].1,
        ) && new_k.contains(reqs[j].0) by {
            let i = choose|i: int|
                0 <= i < old_i.len() && term_views(#[trigger] old_i[i].terms@) == seq![
                    TermView { package: asg.package@, constraint: exact_view(asg.version), positive: true },
                    TermView { package: reqs[j].0, constraint: reqs[j].1, positive: false },
                ];
            assert(new_i[i] == old_i[i]);
            let m = choose|m: int| 0 <= m < old_k.len() && old_k[m] == reqs[j].0;
            assert(new_k[m] == old_k[m]);
        }
    }
}

/// Where no incompatibility is violated and every known package has a
/// version, a root requirement on a known package holds.
proof fn lemma_root_holds(incs: Seq<Incompatibility>, a: Seq<Assignment>, known: Seq<Seq<char>>, n: Seq<char>, c: Seq<Seq<VersionRange>>)
    requires
        forall|i: int| 0 <= i < incs.len() ==> !violated(#[trigger] incs[i].terms@, a),
        forall|i: int| 0 <= i < known.len() ==> assigned_version(a, #[trigger] known[i]) is Some,
        requires_root(incs, n, c),
        known.contains(n),
    ensures
        assigned_version(a, n) matches Some(w) && constraint_matches(c, w),
{
    let i = choose|i: int|
        0 <= i < incs.len() && term_views(#[trigger] incs[i].terms@) == seq![
            TermView { package: n, constraint: c, positive: false },
        ];
    let m = choose|m: int| 0 <= m < known.len() && known[m] == n;
    assert(assigned_version(a, known[m]) is Some);
    let terms = incs[i].terms@;
    assert(term_views(terms) == seq![TermView { package: n, constraint: c, positive: false }]);
    assert(term_views(terms).len() == 1);
    assert(term_views(terms)[0] == terms[0]@);
    assert(terms.len() == 1);
    let w = assigned_version(a, n)->0;
    if !constraint_matches(c, w) {
        assert(term_satisfied(terms[0]@, a));
        assert(violated(terms, a));
    }
}

/// Likewise, a recorded requirement of an assigned version holds.
proof fn lemma_dependency_holds(
    incs: Seq<Incompatibility>,
    a: Seq<Assignment>,
    known: Seq<Seq<char>>,
    t: int,
    d: Seq<char>,
    c: Seq<Seq<VersionRange>>,
)
    requires
        forall|i: int| 0 <= i < incs.len() ==> !violated(#[trigger] incs[i].terms@, a),
        forall|i: int| 0 <= i < known.len() ==> assigned_version(a, #[trigger] known[i]) is Some,
        forall|x: int, y: int| 0 <= x < y < a.len() ==> a[x].package@ != a[y].package@,
        0 <= t < a.len(),
        requires_dependency(incs, a[t].package@, a[t].version, d, c),
        known.contains(d),
    ensures
        assigned_version(a, d) matches Some(w) && constraint_matches(c, w),
{
    let i = choose|i: int|
        0 <= i < incs.len() && term_views(#[trigger] incs[i].terms@) == seq![
            TermView { package: a[t].package@, constraint: exact_view(a[t].version), positive: true },
            TermView { package: d, constraint: c, positive: false },
        ];
    let m = choose|m: int| 0 <= m < known.len() && known[m] == d;
    assert(assigned_version(a, known[m]) is Some);
    lemma_assigned_unique(a, t);
    lemma_exact_view(a[t].version, a[t].version);
    let terms = incs[i].terms@;
    assert(term_views(terms)[0] == terms[0]@);
    assert(term_views(terms)[1] == terms[1]@);
    assert(term_views(terms).len() == 2);
    assert(terms.len() == 2);
    assert(term_satisfied(terms[0]@, a));
    let w = assigned_version(a, d)->0;
    if !constraint_matches(c, w) {
        assert(term_satisfied(terms[1]@, a));
        assert forall|k: int| 0 <= k < terms.len() implies term_satisfied(#[trigger] terms[k]@, a) by {
            if k == 0 {
            } else {
                assert(k == 1);
            }
        }
        assert(violated(terms, a));
    }
}

/// Result of resolution: the selected version of each package, with the
/// requirements the provider gave for that version.
#[derive(Debug)]
pub struct ResolutionResult {
    /// Selected versions for each package.
    pub selections: Vec<(String, Version)>,
    /// The requirements of each selected version, in the same order.
    pub requirements: Vec<Vec<(String, VersionConstraint)>>,
}

/// The version selected for a package (its last selection), if any.
pub open spec fn selected_version(sel: Seq<(String, Version)>, name: Seq<char>) -> Option<Version>
    decreases sel.len(),
{
    if sel.len() == 0 {
        None
    } else if sel.last().0@ == name {
        Some(sel.last().1)
    } else {
        selected_version(sel.drop_last(), name)
    }
}

/// A resolution is sound for the root requirements: each root requirement
/// and each requirement of a selected version (platform requirements aside)
/// names a selected package whose version satisfies it. The name `root`
/// stands for the root itself and is never selected.
pub open spec fn resolution_sound(res: ResolutionResult, root: Seq<(String, VersionConstraint)>) -> bool {
    let sel = res.selections@;
    &&& sel.len() == res.requirements@.len()
    &&& forall|x: int| 0 <= x < sel.len() ==> (#[trigger] sel[x]).0@ != "root"@
    &&& forall|k: int|
        0 <= k < root.len() && (#[trigger] root[k]).0@ != "root"@ ==> (selected_version(sel, root[k].0@) matches Some(w)
            && constraint_matches(root[k].1@, w))
    &&& forall|x: int, j: int|
        0 <= x < sel.len() && 0 <= j < res.requirements@[x]@.len() && !platform_name(
            (#[trigger] res.requirements@[x]@[j]).0@,
        ) && res.requirements@[x]@[j].0@ != "root"@ ==> (selected_version(sel, res.requirements@[x]@[j].0@) matches Some(w)
            && constraint_matches(res.requirements@[x]@[j].1@, w))
}

fn copy_terms(t: &Vec<Term>) -> (out: Vec<Term>)
    ensures
        term_views(out@) == term_views(t@),
{
    let mut out: Vec<Term> = Vec::new();
    let mut i: usize = 0;
    while i < t.len()
        invariant
            i <= t@.len(),
            term_views(out@) == term_views(t@.subrange(0, i as int)),
        decreases t.len() - i,
    {
        let ghost before = out@;
        out.push(t[i].duplicate());
        proof {
            assert(term_views(out@) =~= term_views(before).push(t@[i as int]@));
            assert(term_views(t@.subrange(0, i + 1)) =~= term_views(t@.subrange(0, i as int)).push(t@[i as int]@));
        }
        i = i + 1;
    }
    assert(t@.subrange(0, t@.len() as int) =~= t@);
    out
}

/// The partial solution built during resolution: the assignments in the
/// order they were made, the current decision level, and the constraints
/// derived for packages by propagation.
#[derive(Debug)]
pub struct PartialSolution {
    /// Package assignments, in the order they were made.
    pub assignments: Vec<Assignment>,
    /// Current decision level.
    pub decision_level: u64,
    /// Constraints a package must satisfy.
    pub positive_derivations: Vec<(String, VersionConstraint)>,
    /// Constraints a package must not satisfy.
    pub negative_derivations: Vec<(String, VersionConstraint)>,
}

impl PartialSolution {
    /// An empty partial solution at decision level 0.
    pub fn new() -> (r: Self)
        ensures
            r.assignments@.len() == 0,
            r.decision_level == 0,
            r.positive_derivations@.len() == 0,
            r.negative_derivations@.len() == 0,
    {
        PartialSolution {
            assignments: Vec::new(),
            decision_level: 0,
            positive_derivations: Vec::new(),
            negative_derivations: Vec::new(),
        }
    }

    /// Make a decision: a new decision level, at which `package` gets
    /// `version` with its requirements.
    pub fn decide(&mut self, package: String, version: Version, requirements: Vec<(String, VersionConstraint)>)
        requires
            old(self).decision_level < u64::MAX,
        ensures
            final(self).decision_level == old(self).decision_level + 1,
            final(self).assignments@ == old(self).assignments@.push(
                Assignment {
                    package,
                    version,
                    decision_level: (old(self).decision_level + 1) as u64,
                    is_decision: true,
                    cause: None,
                    requirements,
                },
            ),
            final(self).positive_derivations == old(self).positive_derivations,
            final(self).negative_derivations == old(self).negative_derivations,
    {
        self.decision_level = self.decision_level + 1;
        self.assignments.push(
            Assignment { package, version, decision_level: self.decision_level, is_decision: true, cause: None, requirements },
        );
    }

    /// Make a derivation: `package` gets `version` at the current level,
    /// forced by the incompatibility `cause`.
    pub fn derive(&mut self, package: String, version: Version, cause: u64)
        ensures
            final(self).decision_level == old(self).decision_level,
            final(self).assignments@ == old(self).assignments@.push(
                Assignment {
                    package,
                    version,
                    decision_level: old(self).decision_level,
                    is_decision: false,
                    cause: Some(cause),
                    requirements: final(self).assignments@.last().requirements,
                },
            ),
            final(self).assignments@.last().requirements@.len() == 0,
            final(self).positive_derivations == old(self).positive_derivations,
            final(self).negative_derivations == old(self).negative_derivations,
    {
        self.assignments.push(
            Assignment {
                package,
                version,
                decision_level: self.decision_level,
                is_decision: false,
                cause: Some(cause),
                requirements: Vec::new(),
            },
        );
    }

    /// Add a positive derivation: `package` must satisfy `constraint`.
    pub fn add_positive(&mut self, package: String, constraint: VersionConstraint)
        ensures
            final(self).positive_derivations@ == old(self).positive_derivations@.push((package, constraint)),
            final(self).assignments == old(self).assignments,
            final(self).decision_level == old(self).decision_level,
            final(self).negative_derivations == old(self).negative_derivations,
    {
        self.positive_derivations.push((package, constraint));
    }

    /// Add a negative derivation: `package` must not satisfy `constraint`.
    pub fn add_negative(&mut self, package: String, constraint: VersionConstraint)
        ensures
            final(self).negative_derivations@ == old(self).negative_derivations@.push((package, constraint)),
            final(self).assignments == old(self).assignments,
            final(self).decision_level == old(self).decision_level,
            final(self).positive_derivations == old(self).positive_derivations,
    {
        self.negative_derivations.push((package, constraint));
    }

    /// The effective constraint of a package: the intersection of its
    /// positive derivations (negative ones are not taken into account).
    pub fn effective_constraint(&self, package: &str) -> (r: VersionConstraint)
        ensures
            forall|v: Version| constraint_matches(r@, v) <==> (forall|k: int|
                0 <= k < self.positive_derivations@.len() && (#[trigger] self.positive_derivations@[k]).0@ == package@
                    ==> constraint_matches(self.positive_derivations@[k].1@, v)),
    {
        effective_constraint(&self.positive_derivations, package)
    }

    /// Backtrack to decision level `level`: the assignments made at higher
    /// levels are undone.
    pub fn backtrack(&mut self, level: u64)
        ensures
            final(self).assignments@.len() <= old(self).assignments@.len(),
            final(self).assignments@ == old(self).assignments@.subrange(0, final(self).assignments@.len() as int),
            final(self).decision_level <= old(self).decision_level,
            final(self).positive_derivations == old(self).positive_derivations,
            final(self).negative_derivations == old(self).negative_derivations,
    {
        backtrack(&mut self.assignments, &mut self.decision_level, level);
    }

    /// The first of `packages` without a version.
    pub fn unassigned_package(&self, packages: &Vec<String>) -> (r: Option<String>)
        ensures
            r matches Some(n) ==> assigned_version(self.assignments@, n@) is None && views(packages@).contains(n@),
            r is None ==> forall|i: int| 0 <= i < packages@.len() ==> assigned_version(self.assignments@, (#[trigger] packages@[i])@) is Some,
    {
        match first_unassigned(packages, &self.assignments) {
            Some(i) => {
                let n = owned(packages[i as usize].as_str());
                assert(views(packages@)[i as int] == n@);
                Some(n)
            },
            None => None,
        }
    }

    /// Whether every one of `packages` has a version.
    pub fn is_complete(&self, packages: &Vec<String>) -> (r: bool)
        ensures
            r == forall|i: int| 0 <= i < packages@.len() ==> assigned_version(self.assignments@, (#[trigger] packages@[i])@) is Some,
    {
        first_unassigned(packages, &self.assignments).is_none()
    }

    /// Unit propagation (see `propagate`).
    fn propagate(&mut self, incs: &Vec<Incompatibility>) -> (r: Option<usize>)
        ensures
            final(self).assignments == old(self).assignments,
            final(self).decision_level == old(self).decision_level,
            r is None ==> forall|i: int| 0 <= i < incs@.len() ==> !violated(#[trigger] incs@[i].terms@, final(self).assignments@),
            r matches Some(i) ==> i < incs@.len() && violated(incs@[i as int].terms@, final(self).assignments@),
    {
        propagate(incs, &self.assignments, &mut self.positive_derivations, &mut self.negative_derivations)
    }
}

/// The PubGrub solver.
pub struct PubGrubSolver<P: PackageProvider> {
    provider: P,
    options: ResolutionOptions,
}

impl<P: PackageProvider> PubGrubSolver<P> {
    /// The options the solver was made with.
    pub closed spec fn options_of(&self) -> ResolutionOptions {
        self.options
    }

    /// Create a new solver.
    pub fn new(provider: P, options: ResolutionOptions) -> (r: Self)
        ensures
            r.options_of() == options,
    {
        PubGrubSolver { provider, options }
    }

    /// Records the requirements `deps` of version `v` of `pkg`: each one
    /// that is no platform requirement becomes an incompatibility, and a
    /// package not known yet becomes known once the provider says it
    /// exists; else its name is returned.
    fn add_requirements(
        &self,
        incs: &mut Vec<Incompatibility>,
        known: &mut Vec<String>,
        next_id: &mut u64,
        pkg: &str,
        v: Version,
        deps: &Vec<(String, VersionConstraint)>,
    ) -> (r: Option<String>)
        ensures
            old(incs)@.len() <= final(incs)@.len(),
            forall|i: int| 0 <= i < old(incs)@.len() ==> final(incs)@[i] == old(incs)@[i],
            old(known)@.len() <= final(known)@.len(),
            forall|i: int| 0 <= i < old(known)@.len() ==> final(known)@[i] == old(known)@[i],
            r is None ==> forall|j: int|
                0 <= j < deps@.len() && !platform_name((#[trigger] requirement_list(deps@)[j]).0) ==> requires_dependency(
                    final(incs)@,
                    pkg@,
                    v,
                    requirement_list(deps@)[j].0,
                    requirement_list(deps@)[j].1,
                ) && views(final(known)@).contains(requirement_list(deps@)[j].0),
    {
        let ghost reqs = requirement_list(deps@);
        let mut j: usize = 0;
        while j < deps.len()
            invariant
                j <= deps@.len(),
                reqs == requirement_list(deps@),
                old(incs)@.len() <= incs@.len(),
                forall|i: int| 0 <= i < old(incs)@.len() ==> incs@[i] == old(incs)@[i],
                old(known)@.len() <= known@.len(),
                forall|i: int| 0 <= i < old(known)@.len() ==> known@[i] == old(known)@[i],
                forall|x: int|
                    0 <= x < j && !platform_name((#[trigger] reqs[x]).0) ==> requires_dependency(incs@, pkg@, v, reqs[x].0, reqs[x].1)
                        && views(known@).contains(reqs[x].0),
            decreases deps.len() - j,
        {
            let name = deps[j].0.as_str();
            if !is_platform_package(name) {
                let ghost i0 = incs@;
                let ghost k0 = views(known@);
                let ghost kk0 = known@;
                incs.push(Incompatibility::dependency(*next_id, pkg, VersionConstraint::exact(v), name, deps[j].1.duplicate()));
                *next_id = next_id.wrapping_add(1);
                if !contains_name(known.as_slice(), name) {
                    if !self.provider.package_exists(name) {
                        return Some(owned(name));
                    }
                    known.push(owned(name));
                    proof {
                        assert(views(known@)[views(known@).len() - 1] == name@);
                    }
                }
                proof {
                    assert(reqs[j as int] == (deps@[j as int].0@, deps@[j as int].1@));
                    assert(views(known@).len() >= k0.len());
                    assert forall|i: int| 0 <= i < k0.len() implies views(known@)[i] == k0[i] by {
                        assert(known@[i] == kk0[i]);
                    }
                    lemma_grown(i0, incs@, k0, views(known@));
                    let last = incs@.len() - 1;
                    assert(term_views(incs@[last].terms@) =~= seq![
                        TermView { package: pkg@, constraint: exact_view(v), positive: true },
                        TermView { package: reqs[j as int].0, constraint: reqs[j as int].1, positive: false },
                    ]);
                    assert(requires_dependency(incs@, pkg@, v, reqs[j as int].0, reqs[j as int].1));
                    assert(views(known@).contains(reqs[j as int].0));
                    assert forall|i: int| 0 <= i < old(incs)@.len() implies incs@[i] == old(incs)@[i] by {
                        assert(incs@[i] == i0[i]);
                    }
                    assert forall|i: int| 0 <= i < old(known)@.len() implies known@[i] == old(known)@[i] by {
                        assert(known@[i] == kk0[i]);
                    }
                }
            }
            j = j + 1;
        }
        None
    }
}

impl<P: PackageProvider> PubGrubSolver<P> {
    /// Resolve dependencies starting from root requirements.
    ///
    /// The root (named `root`) is decided first. Each root requirement must
    /// name a package the provider knows, else `PackageNotFound` with the
    /// first unknown name. Then, for at most `max_iterations` rounds: unit
    /// propagation over the incompatibilities learned so far; a violated one
    /// makes the search backtrack below the level of its latest decision,
    /// learning it again, or fail with `Conflict` where no level is left;
    /// else the first package without a version gets the first version, in
    /// the order of the resolution mode, that the derived constraints and the
    /// minimum stability allow (`NoMatchingVersions` where none does), and
    /// its requirements become incompatibilities, each new package checked
    /// with the provider. When every package has a version the selections
    /// are returned; a resolution returned satisfies every root requirement
    /// and every requirement of every selected version.
    pub fn solve(&self, root_deps: &[(String, VersionConstraint)]) -> (r: Result<ResolutionResult, ResolutionError>)
        ensures
            r matches Ok(res) ==> resolution_sound(res, root_deps@),
            self.options_of().max_iterations == 0 ==> (r matches Err(e) && (e is TooManyIterations || e is PackageNotFound)),
            !(r matches Err(ResolutionError::CircularDependency { .. })),
            root_deps@.len() == 0 && self.options_of().max_iterations > 0 ==> (r matches Ok(res) && res.selections@.len() == 0),
    {
        let ghost root = root_deps@;
        let mut known: Vec<String> = Vec::new();
        known.push(owned("root"));
        proof {
            reveal_strlit("root");
        }
        let mut solution = PartialSolution::new();
        solution.decide(owned("root"), Version::new(0, 0, 0), Vec::new());
        let mut incs: Vec<Incompatibility> = Vec::new();
        let mut next_id: u64 = 0;
        proof {
            assert(requirement_list(solution.assignments@[0].requirements@) =~= Seq::<(Seq<char>, Seq<Seq<VersionRange>>)>::empty());
        }
        let mut k: usize = 0;
        while k < root_deps.len()
            invariant
                k <= root.len(),
                root == root_deps@,
                solution.assignments@.len() == 1,
                requirement_list(solution.assignments@[0].requirements@).len() == 0,
                solution.decision_level == 1,
                forall|x: int|
                    0 <= x < k ==> requires_root(incs@, (#[trigger] root[x]).0@, root[x].1@) && views(known@).contains(
                        root[x].0@,
                    ),
                known@.len() >= 1 && known@[0]@ == "root"@,
                root.len() == 0 ==> known@.len() == 1 && incs@.len() == 0,
                solution.assignments@[0].package@ == "root"@,
            decreases root_deps.len() - k,
        {
            let name = root_deps[k].0.as_str();
            if !self.provider.package_exists(name) {
                return Err(ResolutionError::PackageNotFound { name: owned(name) });
            }
            let ghost i0 = incs@;
            let ghost k0 = views(known@);
            let ghost kk0 = known@;
            incs.push(Incompatibility::root(next_id, name, root_deps[k].1.duplicate()));
            next_id = next_id.wrapping_add(1);
            if !contains_name(known.as_slice(), name) {
                known.push(owned(name));
                proof {
                    assert(views(known@)[views(known@).len() - 1] == name@);
                }
            }
            proof {
                assert forall|i: int| 0 <= i < k0.len() implies views(known@)[i] == k0[i] by {
                    assert(known@[i] == kk0[i]);
                }
                assert(known@[0] == kk0[0]);
                lemma_grown(i0, incs@, k0, views(known@));
                let last = incs@.len() - 1;
                assert(term_views(incs@[last].terms@) =~= seq![
                    TermView { package: root[k as int].0@, constraint: root[k as int].1@, positive: false },
                ]);
                assert(requires_root(incs@, root[k as int].0@, root[k as int].1@));
            }
            k = k + 1;
        }
        let max: u64 = self.options.max_iterations as u64;
        let mut iterations: u64 = 0;
        let mut done = false;
        while !done
            invariant
                iterations <= max,
                max == self.options.max_iterations,
                root == root_deps@,
                solution.decision_level <= iterations + 1,
                max > 0 || !done,
                forall|x: int|
                    0 <= x < root.len() ==> requires_root(incs@, (#[trigger] root[x]).0@, root[x].1@) && views(known@).contains(
                        root[x].0@,
                    ),
                forall|i: int| 0 <= i < solution.assignments@.len() ==> requirements_recorded(incs@, views(known@), #[trigger] solution.assignments@[i]),
                forall|x: int, y: int| 0 <= x < y < solution.assignments@.len() ==> solution.assignments@[x].package@ != solution.assignments@[y].package@,
                done ==> forall|i: int| 0 <= i < incs@.len() ==> !violated(#[trigger] incs@[i].terms@, solution.assignments@),
                done ==> forall|i: int| 0 <= i < known@.len() ==> assigned_version(solution.assignments@, (#[trigger] known@[i])@) is Some,
                root.len() == 0 ==> incs@.len() == 0 && known@.len() == 1 && known@[0]@ == "root"@
                    && solution.assignments@.len() == 1 && solution.assignments@[0].package@ == "root"@ && (iterations == 0 || done),
            decreases max - iterations,
        {
            iterations = iterations + 1;
            if iterations > max {
                return Err(ResolutionError::TooManyIterations);
            }
            match solution.propagate(&incs) {
                Some(ci) => {
                    match conflict_level(&incs[ci].terms, &solution.assignments, solution.decision_level) {
                        Some(to) => {
                            let ghost i0 = incs@;
                            let ghost a0 = solution.assignments@;
                            let learned = Incompatibility {
                                id: incs[ci].id,
                                terms: copy_terms(&incs[ci].terms),
                                cause: incs[ci].cause,
                            };
                            incs.push(learned);
                            solution.backtrack(to);
                            proof {
                                lemma_grown(i0, incs@, views(known@), views(known@));
                                assert forall|i: int| 0 <= i < solution.assignments@.len() implies requirements_recorded(
                                    incs@,
                                    views(known@),
                                    #[trigger] solution.assignments@[i],
                                ) by {
                                    assert(solution.assignments@[i] == a0[i]);
                                }
                                assert forall|x: int, y: int| 0 <= x < y < solution.assignments@.len() implies solution.assignments@[x].package@
                                    != solution.assignments@[y].package@ by {
                                    assert(solution.assignments@[x] == a0[x]);
                                    assert(solution.assignments@[y] == a0[y]);
                                }
                            }
                        },
                        None => {
                            return Err(ResolutionError::Conflict { explanation: incs[ci].explain() });
                        },
                    }
                },
                None => {
                    match solution.unassigned_package(&known) {
                        None => {
                            done = true;
                        },
                        Some(pkg) => {
                            let eff = solution.effective_constraint(pkg.as_str());
                            let versions = self.provider.versions(pkg.as_str());
                            match select_version(&versions, &eff, self.options.mode, self.options.min_stability) {
                                None => {
                                    let inc = Incompatibility::no_versions(next_id, pkg.as_str(), eff);
                                    return Err(ResolutionError::NoMatchingVersions { explanation: inc.explain() });
                                },
                                Some(v) => {
                                    let deps = self.provider.dependencies(pkg.as_str(), &v);
                                    let ghost i0 = incs@;
                                    let ghost k0 = views(known@);
                                    let ghost kk0 = known@;
                                    let ghost a0 = solution.assignments@;
                                    match self.add_requirements(&mut incs, &mut known, &mut next_id, pkg.as_str(), v, &deps) {
                                        Some(missing) => {
                                            return Err(ResolutionError::PackageNotFound { name: missing });
                                        },
                                        None => {},
                                    }
                                    let ghost entry = Assignment {
                                        package: pkg,
                                        version: v,
                                        decision_level: (solution.decision_level + 1) as u64,
                                        is_decision: true,
                                        cause: None,
                                        requirements: deps,
                                    };
                                    solution.decide(pkg, v, deps);
                                    proof {
                                        assert forall|i: int| 0 <= i < k0.len() implies views(known@)[i] == k0[i] by {
                                            assert(known@[i] == kk0[i]);
                                        }
                                        lemma_grown(i0, incs@, k0, views(known@));
                                        assert forall|i: int| 0 <= i < solution.assignments@.len() implies requirements_recorded(
                                            incs@,
                                            views(known@),
                                            #[trigger] solution.assignments@[i],
                                        ) by {
                                            if i < a0.len() {
                                                assert(solution.assignments@[i] == a0[i]);
                                            } else {
                                                assert(solution.assignments@[i] == entry);
                                            }
                                        }
                                        assert forall|x: int, y: int| 0 <= x < y < solution.assignments@.len() implies solution.assignments@[x].package@
                                            != solution.assignments@[y].package@ by {
                                            if y == a0.len() {
                                                lemma_assigned_none(a0, pkg@, x);
                                            } else {
                                                assert(solution.assignments@[x] == a0[x]);
                                                assert(solution.assignments@[y] == a0[y]);
                                            }
                                        }
                                    }
                                },
                            }
                        },
                    }
                },
            }
        }
        let r = self.build_result(&solution.assignments, Ghost(incs@), Ghost(known@), root_deps);
        proof {
            if root.len() == 0 {
                let res = r->Ok_0;
                if res.selections@.len() > 0 {
                    assert(res.selections@[0].0@ != "root"@);
                }
            }
        }
        r
    }

    fn build_result(
        &self,
        assigned: &Vec<Assignment>,
        incs: Ghost<Seq<Incompatibility>>,
        known: Ghost<Seq<String>>,
        root_deps: &[(String, VersionConstraint)],
    ) -> (r: Result<ResolutionResult, ResolutionError>)
        requires
            forall|x: int|
                0 <= x < root_deps@.len() ==> requires_root(incs@, (#[trigger] root_deps@[x]).0@, root_deps@[x].1@)
                    && views(known@).contains(root_deps@[x].0@),
            forall|i: int| 0 <= i < assigned@.len() ==> requirements_recorded(incs@, views(known@), #[trigger] assigned@[i]),
            forall|x: int, y: int| 0 <= x < y < assigned@.len() ==> assigned@[x].package@ != assigned@[y].package@,
            forall|i: int| 0 <= i < incs@.len() ==> !violated(#[trigger] incs@[i].terms@, assigned@),
            forall|i: int| 0 <= i < known@.len() ==> assigned_version(assigned@, (#[trigger] known@[i])@) is Some,
        ensures
            r matches Ok(res) && resolution_sound(res, root_deps@),
            r matches Ok(res) && (assigned@.len() == 1 && assigned@[0].package@ == "root"@ ==> res.selections@.len() == 0),
    {
        let ghost kv = views(known@);
        proof {
            assert forall|i: int| 0 <= i < kv.len() implies assigned_version(assigned@, #[trigger] kv[i]) is Some by {
                assert(kv[i] == known@[i]@);
            }
        }
        let (res, origin) = collect_selections(assigned);
        proof {
            lemma_result_sound(res, origin@, assigned@, incs@, kv, root_deps@);
            if assigned@.len() == 1 && assigned@[0].package@ == "root"@ && res.selections@.len() > 0 {
                assert(origin@[0] == 0);
            }
        }
        Ok(res)
    }
}

/// The selections of the assignments other than the root, with their
/// requirements, and for each the assignment it comes from.
fn collect_selections(assigned: &Vec<Assignment>) -> (r: (ResolutionResult, Ghost<Seq<int>>))
    ensures
        r.0.selections@.len() == r.0.requirements@.len(),
        r.1@.len() == r.0.selections@.len(),
        forall|n: Seq<char>| n != "root"@ ==> #[trigger] selected_version(r.0.selections@, n) == assigned_version(assigned@, n),
        forall|x: int|
            0 <= x < r.0.selections@.len() ==> 0 <= #[trigger] r.1@[x] < assigned@.len() && r.0.selections@[x].0@
                == assigned@[r.1@[x]].package@ && r.0.selections@[x].0@ != "root"@ && requirement_list(
                r.0.requirements@[x]@,
            ) == requirement_list(assigned@[r.1@[x]].requirements@),
{
    let ghost a = assigned@;
    let mut selections: Vec<(String, Version)> = Vec::new();
    let mut requirements: Vec<Vec<(String, VersionConstraint)>> = Vec::new();
    let ghost mut origin: Seq<int> = Seq::empty();
    let mut i: usize = 0;
    assert(a.subrange(0, 0) =~= Seq::<Assignment>::empty());
    while i < assigned.len()
        invariant
            i <= a.len(),
            a == assigned@,
            selections@.len() == requirements@.len(),
            origin.len() == selections@.len(),
            forall|n: Seq<char>| n != "root"@ ==> #[trigger] selected_version(selections@, n) == assigned_version(a.subrange(0, i as int), n),
            forall|x: int|
                0 <= x < selections@.len() ==> 0 <= #[trigger] origin[x] < i && selections@[x].0@ == a[origin[x]].package@
                    && selections@[x].0@ != "root"@ && requirement_list(requirements@[x]@) == requirement_list(
                    a[origin[x]].requirements@,
                ),
        decreases assigned.len() - i,
    {
        let ghost s0 = selections@;
        let ghost sub = a.subrange(0, i + 1);
        proof {
            assert(sub.drop_last() =~= a.subrange(0, i as int));
            assert(sub.last() == a[i as int]);
        }
        if !str_eq(assigned[i].package.as_str(), "root") {
            selections.push((owned(assigned[i].package.as_str()), assigned[i].version));
            requirements.push(copy_requirements(&assigned[i].requirements));
            proof {
                origin = origin.push(i as int);
                assert(selections@.drop_last() =~= s0);
                assert forall|n: Seq<char>| n != "root"@ implies #[trigger] selected_version(selections@, n) == assigned_version(
                    sub,
                    n,
                ) by {
                    assert(selections@.last().0@ == a[i as int].package@);
                    assert(selections@.last().1 == a[i as int].version);
                    assert(selected_version(s0, n) == assigned_version(a.subrange(0, i as int), n));
                }
            }
        } else {
            proof {
                assert forall|n: Seq<char>| n != "root"@ implies #[trigger] selected_version(selections@, n) == assigned_version(
                    sub,
                    n,
                ) by {
                    assert(sub.last().package@ == "root"@);
                    assert(selected_version(s0, n) == assigned_version(a.subrange(0, i as int), n));
                }
            }
        }
        i = i + 1;
    }
    assert(a.subrange(0, a.len() as int) =~= a);
    (ResolutionResult { selections, requirements }, Ghost(origin))
}

proof fn lemma_result_sound(
    res: ResolutionResult,
    origin: Seq<int>,
    a: Seq<Assignment>,
    incs: Seq<Incompatibility>,
    kv: Seq<Seq<char>>,
    root: Seq<(String, VersionConstraint)>,
)
    requires
        res.selections@.len() == res.requirements@.len(),
        origin.len() == res.selections@.len(),
        forall|n: Seq<char>| n != "root"@ ==> #[trigger] selected_version(res.selections@, n) == assigned_version(a, n),
        forall|x: int|
            0 <= x < res.selections@.len() ==> 0 <= #[trigger] origin[x] < a.len() && res.selections@[x].0@ == a[origin[x]].package@
                && res.selections@[x].0@ != "root"@ && requirement_list(res.requirements@[x]@) == requirement_list(
                a[origin[x]].requirements@,
            ),
        forall|x: int| 0 <= x < root.len() ==> requires_root(incs, (#[trigger] root[x]).0@, root[x].1@) && kv.contains(root[x].0@),
        forall|i: int| 0 <= i < a.len() ==> requirements_recorded(incs, kv, #[trigger] a[i]),
        forall|x: int, y: int| 0 <= x < y < a.len() ==> a[x].package@ != a[y].package@,
        forall|i: int| 0 <= i < incs.len() ==> !violated(#[trigger] incs[i].terms@, a),
        forall|i: int| 0 <= i < kv.len() ==> assigned_version(a, #[trigger] kv[i]) is Some,
    ensures
        resolution_sound(res, root),
{
    let sel = res.selections@;
    assert forall|x: int| 0 <= x < sel.len() implies (#[trigger] sel[x]).0@ != "root"@ by {
        assert(0 <= origin[x]);
    }
    assert forall|k: int|
        0 <= k < root.len() && (#[trigger] root[k]).0@ != "root"@ implies (selected_version(sel, root[k].0@) matches Some(w)
            && constraint_matches(root[k].1@, w)) by {
        lemma_root_holds(incs, a, kv, root[k].0@, root[k].1@);
        assert(selected_version(sel, root[k].0@) == assigned_version(a, root[k].0@));
    }
    assert forall|x: int, j: int|
        0 <= x < sel.len() && 0 <= j < res.requirements@[x]@.len() && !platform_name((#[trigger] res.requirements@[x]@[j]).0@)
            && res.requirements@[x]@[j].0@ != "root"@ implies (selected_version(sel, res.requirements@[x]@[j].0@) matches Some(w)
        && constraint_matches(res.requirements@[x]@[j].1@, w)) by {
        let t = origin[x];
        assert(0 <= t < a.len());
        let d = res.requirements@[x]@[j].0@;
        let c = res.requirements@[x]@[j].1@;
        let reqs = requirement_list(a[t].requirements@);
        assert(requirement_list(res.requirements@[x]@)[j] == (d, c));
        assert(reqs[j] == (d, c));
        assert(requirements_recorded(incs, kv, a[t]));
        lemma_dependency_holds(incs, a, kv, t, d, c);
        assert(selected_version(sel, d) == assigned_version(a, d));
    }
}

/// Whether some version satisfies the constraint.
pub open spec fn satisfiable(c: Seq<Seq<VersionRange>>) -> bool {
    exists|v: Version| constraint_matches(c, v)
}

/// A range of clause `i` that holds `v`.
spec fn chosen_range(c: Seq<Seq<VersionRange>>, v: Version, i: int) -> int {
    choose|j: int| 0 <= j < c[i].len() && range_contains(#[trigger] c[i][j], v)
}

/// Among the ranges chosen for the first `n` clauses, the one with the
/// highest lower end.
spec fn highest_low(c: Seq<Seq<VersionRange>>, v: Version, n: nat) -> (int, int)
    decreases n,
{
    if n <= 1 {
        (0, chosen_range(c, v, 0))
    } else {
        let prev = highest_low(c, v, (n - 1) as nat);
        let j = chosen_range(c, v, n - 1);
        if version_lt(c[prev.0][prev.1].low, c[n - 1][j].low) {
            (n - 1, j)
        } else {
            prev
        }
    }
}

proof fn lemma_highest_low(c: Seq<Seq<VersionRange>>, v: Version, n: nat)
    requires
        constraint_matches(c, v),
        1 <= n <= c.len(),
    ensures
        ({
            let h = highest_low(c, v, n);
            &&& 0 <= h.0 < c.len()
            &&& 0 <= h.1 < c[h.0].len()
            &&& range_contains(c[h.0][h.1], v)
            &&& forall|i: int| 0 <= i < n ==> !version_lt(c[h.0][h.1].low, #[trigger] c[i][chosen_range(c, v, i)].low)
        }),
    decreases n,
{
    assert(clause_holds(c[0], v));
    if n > 1 {
        lemma_highest_low(c, v, (n - 1) as nat);
        assert(clause_holds(c[n - 1], v));
        let prev = highest_low(c, v, (n - 1) as nat);
        let j = chosen_range(c, v, n - 1);
        let h = highest_low(c, v, n);
        assert forall|i: int| 0 <= i < n implies !version_lt(c[h.0][h.1].low, #[trigger] c[i][chosen_range(c, v, i)].low) by {
            let li = c[i][chosen_range(c, v, i)].low;
            lemma_version_order(c[prev.0][prev.1].low, c[n - 1][j].low, li);
            lemma_version_order(c[n - 1][j].low, c[prev.0][prev.1].low, li);
            lemma_version_order(li, c[prev.0][prev.1].low, c[n - 1][j].low);
            lemma_version_order(c[prev.0][prev.1].low, li, c[n - 1][j].low);
            lemma_version_order(c[n - 1][j].low, li, c[prev.0][prev.1].low);
        }
    }
}

/// Where some version satisfies a constraint with clauses, the lower end
/// of one of its ranges does.
proof fn lemma_low_witness(c: Seq<Seq<VersionRange>>, v: Version)
    requires
        constraint_matches(c, v),
        c.len() > 0,
    ensures
        exists|i: int, j: int| 0 <= i < c.len() && 0 <= j < c[i].len() && constraint_matches(c, #[trigger] c[i][j].low),
{
    lemma_highest_low(c, v, c.len());
    let h = highest_low(c, v, c.len());
    let m = c[h.0][h.1].low;
    assert forall|i: int| 0 <= i < c.len() implies clause_holds(#[trigger] c[i], m) by {
        assert(clause_holds(c[i], v));
        let j = chosen_range(c, v, i);
        let r = c[i][j];
        lemma_version_order(m, v, r.low);
        lemma_version_order(r.low, m, v);
        lemma_version_order(v, m, r.low);
        match r.high {
            Some(hi) => {
                lemma_version_order(m, v, hi);
            },
            None => {},
        }
        assert(range_contains(r, m));
    }
    assert(constraint_matches(c, c[h.0][h.1].low));
}

impl VersionConstraint {
    /// Whether some version satisfies the constraint.
    pub fn is_satisfiable(&self) -> (r: bool)
        ensures
            r == satisfiable(self@),
    {
        if self.clauses.len() == 0 {
            let w = Version::new(0, 0, 0);
            assert(constraint_matches(self@, w));
            return true;
        }
        let mut i: usize = 0;
        while i < self.clauses.len()
            invariant
                i <= self@.len(),
                forall|x: int, j: int| 0 <= x < i && 0 <= j < self@[x].len() ==> !constraint_matches(self@, #[trigger] self@[x][j].low),
            decreases self.clauses.len() - i,
        {
            let mut j: usize = 0;
            while j < self.clauses[i].len()
                invariant
                    i < self@.len(),
                    j <= self@[i as int].len(),
                    forall|x: int, y: int| 0 <= x < i && 0 <= y < self@[x].len() ==> !constraint_matches(self@, #[trigger] self@[x][y].low),
                    forall|y: int| 0 <= y < j ==> !constraint_matches(self@, #[trigger] self@[i as int][y].low),
                decreases self@[i as int].len() - j,
            {
                let low = self.clauses[i][j].low;
                if self.matches(&low) {
                    return true;
                }
                j = j + 1;
            }
            i = i + 1;
        }
        proof {
            if satisfiable(self@) {
                let w = choose|w: Version| constraint_matches(self@, w);
                lemma_low_witness(self@, w);
            }
        }
        false
    }
}

impl Term {
    /// The relation to another term: disjoint for another package or where
    /// no version satisfies both constraints, equal where both allow any
    /// version, else overlapping.
    pub fn relation_to(&self, other: &Term) -> (r: SetRelation)
        ensures
            r == (if self.package@ != other.package@ {
                SetRelation::Disjoint
            } else if !satisfiable(self.constraint@ + other.constraint@) {
                SetRelation::Disjoint
            } else if self.constraint@.len() == 0 && other.constraint@.len() == 0 {
                SetRelation::Equal
            } else {
                SetRelation::Overlapping
            }),
    {
        if !str_eq(self.package.as_str(), other.package.as_str()) {
            return SetRelation::Disjoint;
        }
        let intersection = self.constraint.intersect(&other.constraint);
        if !intersection.is_satisfiable() {
            SetRelation::Disjoint
        } else if self.constraint.is_any() && other.constraint.is_any() {
            SetRelation::Equal
        } else {
            SetRelation::Overlapping
        }
    }
}

} // verus!
