//! The corpus validator: cross-checks the partition-tagged fixtures
//! against the taxonomy registry.
//!
//! Five passes run in order over the whole corpus: unknown-tag detection,
//! partition-role consistency, leakage detection, coverage, and program
//! identifier collisions. A fixture with an unresolved tag takes part in
//! the first pass only; the later passes see the resolved fixtures.

use vstd::prelude::*;
use crate::bytes::{bytes_eq, clone_bytes};
use crate::extract::{insts_view, inst_view, opt_view, InstV, Instruction};
use crate::partition::Role;
use crate::taxonomy::{seq_contains, Registry};

verus! {

/// Which exemplar a coverage gap lacks.
#[derive(Clone, Copy, PartialEq, Eq, Structural, Debug)]
pub enum Side {
    Vulnerable,
    Safe,
}

/// A fixture after partition tagging: the unit the validator works on.
#[derive(Debug, PartialEq, Eq)]
pub struct CorpusFixture {
    pub path: Vec<u8>,
    pub program_id: Vec<u8>,
    pub role: Role,
    pub version: Vec<u8>,
    pub instructions: Vec<Instruction>,
}

#[verifier::ext_equal]
pub ghost struct CorpusFixV {
    pub path: Seq<u8>,
    pub program_id: Seq<u8>,
    pub role: Role,
    pub version: Seq<u8>,
    pub instructions: Seq<InstV>,
}

pub open spec fn cf_view(f: CorpusFixture) -> CorpusFixV {
    CorpusFixV {
        path: f.path@,
        program_id: f.program_id@,
        role: f.role,
        version: f.version@,
        instructions: insts_view(f.instructions@),
    }
}

pub open spec fn cfs_view(v: Seq<CorpusFixture>) -> Seq<CorpusFixV> {
    Seq::new(v.len(), |k: int| cf_view(v[k]))
}

/// One validation finding. `CoverageGap` is advisory; the others are
/// blocking. A leakage finding names the calibration partitions the class
/// also appears in; a collision finding names the two fixtures that share
/// the program identifier and their partitions.
#[derive(Debug, PartialEq, Eq)]
#[allow(inconsistent_fields)]
pub enum Finding {
    UnrecognizedGroup { path: Vec<u8> },
    UnattributedMarker { path: Vec<u8> },
    DuplicateTagInInstruction { path: Vec<u8>, instruction: Vec<u8> },
    UnknownClass { path: Vec<u8>, instruction: Vec<u8>, class_id: Vec<u8> },
    PartitionRoleViolation { path: Vec<u8>, class_id: Option<Vec<u8>> },
    PartitionLeakage { class_id: Vec<u8>, in_control: bool, in_seeded: bool },
    CoverageGap { class_id: Vec<u8>, side: Side },
    IdentifierCollision {
        program_id: Vec<u8>,
        first_path: Vec<u8>,
        first_role: Role,
        second_path: Vec<u8>,
        second_role: Role,
    },
}

#[verifier::ext_equal]
#[allow(inconsistent_fields)]
pub ghost enum FindingV {
    UnrecognizedGroup { path: Seq<u8> },
    UnattributedMarker { path: Seq<u8> },
    DuplicateTagInInstruction { path: Seq<u8>, instruction: Seq<u8> },
    UnknownClass { path: Seq<u8>, instruction: Seq<u8>, class_id: Seq<u8> },
    PartitionRoleViolation { path: Seq<u8>, class_id: Option<Seq<u8>> },
    PartitionLeakage { class_id: Seq<u8>, in_control: bool, in_seeded: bool },
    CoverageGap { class_id: Seq<u8>, side: Side },
    IdentifierCollision {
        program_id: Seq<u8>,
        first_path: Seq<u8>,
        first_role: Role,
        second_path: Seq<u8>,
        second_role: Role,
    },
}

pub open spec fn finding_view(f: Finding) -> FindingV {
    match f {
        Finding::UnrecognizedGroup { path } => FindingV::UnrecognizedGroup { path: path@ },
        Finding::UnattributedMarker { path } => FindingV::UnattributedMarker { path: path@ },
        Finding::DuplicateTagInInstruction { path, instruction } =>
            FindingV::DuplicateTagInInstruction { path: path@, instruction: instruction@ },
        Finding::UnknownClass { path, instruction, class_id } => FindingV::UnknownClass {
            path: path@,
            instruction: instruction@,
            class_id: class_id@,
        },
        Finding::PartitionRoleViolation { path, class_id } => FindingV::PartitionRoleViolation {
            path: path@,
            class_id: opt_view(class_id),
        },
        Finding::PartitionLeakage { class_id, in_control, in_seeded } =>
            FindingV::PartitionLeakage { class_id: class_id@, in_control, in_seeded },
        Finding::CoverageGap { class_id, side } => FindingV::CoverageGap {
            class_id: class_id@,
            side,
        },
        Finding::IdentifierCollision {
            program_id,
            first_path,
            first_role,
            second_path,
            second_role,
        } => FindingV::IdentifierCollision {
            program_id: program_id@,
            first_path: first_path@,
            first_role,
            second_path: second_path@,
            second_role,
        },
    }
}

pub open spec fn findings_view(v: Seq<Finding>) -> Seq<FindingV> {
    Seq::new(v.len(), |k: int| finding_view(v[k]))
}

/// Whether a finding blocks acceptance of the corpus. Coverage gaps are
/// advisory warnings; everything else is an error.
pub open spec fn is_blocking(f: FindingV) -> bool {
    !(f is CoverageGap)
}

// ----- core predicates -----

/// The instruction's tag, if any, resolves in the registry identifiers.
pub open spec fn tag_known(i: InstV, ids: Seq<Seq<u8>>) -> bool {
    match i.tag {
        Some(c) => seq_contains(ids, c),
        None => true,
    }
}

/// Every tag of the fixture resolves in the registry identifiers.
pub open spec fn fixture_tags_known(f: CorpusFixV, ids: Seq<Seq<u8>>) -> bool {
    forall|j: int| 0 <= j < f.instructions.len() ==> tag_known(#[trigger] f.instructions[j], ids)
}

/// Number of vulnerable (tagged) instructions.
pub open spec fn count_vuln(instrs: Seq<InstV>) -> nat
    decreases instrs.len(),
{
    if instrs.len() == 0 {
        0
    } else {
        count_vuln(instrs.drop_last()) + if instrs.last().tag is Some {
            1nat
        } else {
            0nat
        }
    }
}

/// The tag of the first vulnerable instruction, if any.
pub open spec fn first_vuln_tag(instrs: Seq<InstV>) -> Option<Seq<u8>>
    decreases instrs.len(),
{
    if instrs.len() == 0 {
        None
    } else if instrs[0].tag is Some {
        instrs[0].tag
    } else {
        first_vuln_tag(instrs.drop_first())
    }
}

/// Class `c` tags some instruction of a fixture with the given role.
pub open spec fn role_has_class(fs: Seq<CorpusFixV>, role: Role, c: Seq<u8>) -> bool {
    exists|k: int, j: int|
        0 <= k < fs.len() && 0 <= j < fs[k].instructions.len() && fs[k].role == role
            && fs[k].instructions[j].tag == Some(c)
}

/// The leakage property violation: `c` is under blind evaluation in a
/// holdout fixture and also available for calibration.
pub open spec fn leaked(fs: Seq<CorpusFixV>, c: Seq<u8>) -> bool {
    role_has_class(fs, Role::Holdout, c) && (role_has_class(fs, Role::Control, c)
        || role_has_class(fs, Role::Seeded, c))
}

/// Class `c` tags some instruction anywhere in the corpus.
pub open spec fn class_vuln_somewhere(fs: Seq<CorpusFixV>, c: Seq<u8>) -> bool {
    exists|k: int, j: int|
        0 <= k < fs.len() && 0 <= j < fs[k].instructions.len() && fs[k].instructions[j].tag
            == Some(c)
}

/// A safe counterpart of shape `len` exists: an untagged instruction with
/// `len` declared account parameters in a control or seeded fixture.
pub open spec fn safe_with_len(fs: Seq<CorpusFixV>, len: nat) -> bool {
    exists|k: int, j: int|
        0 <= k < fs.len() && 0 <= j < fs[k].instructions.len() && fs[k].role != Role::Holdout
            && fs[k].instructions[j].tag is None && fs[k].instructions[j].accounts.len() == len
}

/// Some vulnerable instantiation of `c` has a same-shaped safe
/// counterpart outside holdout. Shape is the declared account count.
pub open spec fn has_safe_counterpart(fs: Seq<CorpusFixV>, c: Seq<u8>) -> bool {
    exists|k: int, j: int|
        0 <= k < fs.len() && 0 <= j < fs[k].instructions.len() && fs[k].instructions[j].tag
            == Some(c) && safe_with_len(fs, fs[k].instructions[j].accounts.len())
}

/// First index at or after `m` whose fixture shares fixture `k`'s
/// program identifier under a different role, or `fs.len()`.
pub open spec fn partner_from(fs: Seq<CorpusFixV>, k: int, m: int) -> int
    decreases fs.len() - m,
{
    if m < 0 || m >= fs.len() {
        fs.len() as int
    } else if fs[m].program_id == fs[k].program_id && fs[m].role != fs[k].role {
        m
    } else {
        partner_from(fs, k, m + 1)
    }
}

/// The first fixture that collides with fixture `k`, or `fs.len()` when
/// none does.
pub open spec fn partner_of(fs: Seq<CorpusFixV>, k: int) -> int {
    partner_from(fs, k, 0)
}

/// Fixture `k` is the first with its program identifier.
pub open spec fn first_with_id(fs: Seq<CorpusFixV>, k: int) -> bool {
    forall|m: int| 0 <= m < k ==> fs[m].program_id != fs[k].program_id
}

// ----- the findings each pass yields -----

/// Unknown-tag findings of one fixture, over its first `j` instructions.
pub open spec fn unknown_in_fixture(f: CorpusFixV, ids: Seq<Seq<u8>>, j: int) -> Seq<FindingV>
    decreases j,
{
    if j <= 0 || j > f.instructions.len() {
        Seq::empty()
    } else {
        unknown_in_fixture(f, ids, j - 1) + match f.instructions[j - 1].tag {
            Some(c) => if !seq_contains(ids, c) {
                seq![
                    FindingV::UnknownClass {
                        path: f.path,
                        instruction: f.instructions[j - 1].name,
                        class_id: c,
                    },
                ]
            } else {
                Seq::empty()
            },
            None => Seq::empty(),
        }
    }
}

/// Unknown-tag findings of the first `k` fixtures.
pub open spec fn unknown_findings(fs: Seq<CorpusFixV>, ids: Seq<Seq<u8>>, k: int) -> Seq<FindingV>
    decreases k,
{
    if k <= 0 || k > fs.len() {
        Seq::empty()
    } else {
        unknown_findings(fs, ids, k - 1) + unknown_in_fixture(
            fs[k - 1],
            ids,
            fs[k - 1].instructions.len() as int,
        )
    }
}

/// The resolved subsequence: fixtures whose tags all resolve, in order.
pub open spec fn resolved_upto(fs: Seq<CorpusFixV>, ids: Seq<Seq<u8>>, k: int) -> Seq<CorpusFixV>
    decreases k,
{
    if k <= 0 || k > fs.len() {
        Seq::empty()
    } else {
        resolved_upto(fs, ids, k - 1) + if fixture_tags_known(fs[k - 1], ids) {
            seq![fs[k - 1]]
        } else {
            Seq::empty()
        }
    }
}

/// The role-profile finding a single fixture earns: a control fixture
/// must have no vulnerable instruction, a holdout fixture at least one.
pub open spec fn role_violation(f: CorpusFixV) -> Option<FindingV> {
    if f.role == Role::Control && count_vuln(f.instructions) > 0 {
        Some(
            FindingV::PartitionRoleViolation {
                path: f.path,
                class_id: first_vuln_tag(f.instructions),
            },
        )
    } else if f.role == Role::Holdout && count_vuln(f.instructions) == 0 {
        Some(FindingV::PartitionRoleViolation { path: f.path, class_id: None })
    } else {
        None
    }
}

pub open spec fn role_findings(rs: Seq<CorpusFixV>, k: int) -> Seq<FindingV>
    decreases k,
{
    if k <= 0 || k > rs.len() {
        Seq::empty()
    } else {
        role_findings(rs, k - 1) + match role_violation(rs[k - 1]) {
            Some(f) => seq![f],
            None => Seq::empty(),
        }
    }
}

/// One leakage finding per registered class that leaks, in registry
/// order.
pub open spec fn leakage_findings(ids: Seq<Seq<u8>>, rs: Seq<CorpusFixV>, k: int) -> Seq<FindingV>
    decreases k,
{
    if k <= 0 || k > ids.len() {
        Seq::empty()
    } else {
        leakage_findings(ids, rs, k - 1) + if leaked(rs, ids[k - 1]) {
            seq![
                FindingV::PartitionLeakage {
                    class_id: ids[k - 1],
                    in_control: role_has_class(rs, Role::Control, ids[k - 1]),
                    in_seeded: role_has_class(rs, Role::Seeded, ids[k - 1]),
                },
            ]
        } else {
            Seq::empty()
        }
    }
}

/// The coverage finding a registered class earns: no vulnerable
/// instantiation at all, or no same-shaped safe counterpart outside
/// holdout.
pub open spec fn coverage_finding(rs: Seq<CorpusFixV>, c: Seq<u8>) -> Option<FindingV> {
    if !class_vuln_somewhere(rs, c) {
        Some(FindingV::CoverageGap { class_id: c, side: Side::Vulnerable })
    } else if !has_safe_counterpart(rs, c) {
        Some(FindingV::CoverageGap { class_id: c, side: Side::Safe })
    } else {
        None
    }
}

pub open spec fn coverage_findings(ids: Seq<Seq<u8>>, rs: Seq<CorpusFixV>, k: int) -> Seq<FindingV>
    decreases k,
{
    if k <= 0 || k > ids.len() {
        Seq::empty()
    } else {
        coverage_findings(ids, rs, k - 1) + match coverage_finding(rs, ids[k - 1]) {
            Some(f) => seq![f],
            None => Seq::empty(),
        }
    }
}

/// One collision finding per program identifier that occurs under two
/// roles, emitted at its first occurrence and naming the first colliding
/// fixture after it.
pub open spec fn collision_findings(rs: Seq<CorpusFixV>, k: int) -> Seq<FindingV>
    decreases k,
{
    if k <= 0 || k > rs.len() {
        Seq::empty()
    } else {
        let p = partner_of(rs, k - 1);
        collision_findings(rs, k - 1) + if first_with_id(rs, k - 1) && p < rs.len() {
            seq![
                FindingV::IdentifierCollision {
                    program_id: rs[k - 1].program_id,
                    first_path: rs[k - 1].path,
                    first_role: rs[k - 1].role,
                    second_path: rs[p].path,
                    second_role: rs[p].role,
                },
            ]
        } else {
            Seq::empty()
        }
    }
}

/// Everything validation reports, in pass order.
pub open spec fn validate_spec(fs: Seq<CorpusFixV>, ids: Seq<Seq<u8>>) -> Seq<FindingV> {
    let rs = resolved_upto(fs, ids, fs.len() as int);
    unknown_findings(fs, ids, fs.len() as int) + role_findings(rs, rs.len() as int)
        + leakage_findings(ids, rs, ids.len() as int) + coverage_findings(
        ids,
        rs,
        ids.len() as int,
    ) + collision_findings(rs, rs.len() as int)
}

// ----- laws -----

/// No identifier is registered twice.
pub open spec fn distinct_ids(ids: Seq<Seq<u8>>) -> bool {
    forall|k1: int, k2: int| 0 <= k1 < k2 < ids.len() ==> ids[k1] != ids[k2]
}

proof fn lemma_unknown_fixture_known(f: CorpusFixV, ids: Seq<Seq<u8>>, j: int)
    requires
        0 <= j <= f.instructions.len(),
        unknown_in_fixture(f, ids, j).len() == 0,
    ensures
        forall|m: int| 0 <= m < j ==> tag_known(#[trigger] f.instructions[m], ids),
    decreases j,
{
    if j > 0 {
        lemma_unknown_fixture_known(f, ids, j - 1);
    }
}

proof fn lemma_unknown_all_known(fs: Seq<CorpusFixV>, ids: Seq<Seq<u8>>, n: int)
    requires
        0 <= n <= fs.len(),
        unknown_findings(fs, ids, n).len() == 0,
    ensures
        forall|m: int| 0 <= m < n ==> fixture_tags_known(#[trigger] fs[m], ids),
    decreases n,
{
    if n > 0 {
        lemma_unknown_all_known(fs, ids, n - 1);
        lemma_unknown_fixture_known(fs[n - 1], ids, fs[n - 1].instructions.len() as int);
    }
}

proof fn lemma_resolved_all(fs: Seq<CorpusFixV>, ids: Seq<Seq<u8>>, n: int)
    requires
        0 <= n <= fs.len(),
        forall|m: int| 0 <= m < n ==> fixture_tags_known(#[trigger] fs[m], ids),
    ensures
        resolved_upto(fs, ids, n) == fs.take(n),
    decreases n,
{
    if n <= 0 {
        assert(resolved_upto(fs, ids, n) =~= fs.take(n));
    } else {
        lemma_resolved_all(fs, ids, n - 1);
        assert(resolved_upto(fs, ids, n) =~= fs.take(n));
    }
}

proof fn lemma_role_none(rs: Seq<CorpusFixV>, n: int)
    requires
        0 <= n <= rs.len(),
        role_findings(rs, n).len() == 0,
    ensures
        forall|m: int| 0 <= m < n ==> role_violation(#[trigger] rs[m]) is None,
    decreases n,
{
    if n > 0 {
        lemma_role_none(rs, n - 1);
    }
}

/// Law: when validation reports nothing, every control fixture has zero
/// vulnerable instructions.
pub proof fn lemma_validated_control_clean(fs: Seq<CorpusFixV>, ids: Seq<Seq<u8>>, k: int)
    requires
        validate_spec(fs, ids).len() == 0,
        0 <= k < fs.len(),
        fs[k].role == Role::Control,
    ensures
        count_vuln(fs[k].instructions) == 0,
{
    let rs = resolved_upto(fs, ids, fs.len() as int);
    lemma_unknown_all_known(fs, ids, fs.len() as int);
    lemma_resolved_all(fs, ids, fs.len() as int);
    assert(fs.take(fs.len() as int) =~= fs);
    lemma_role_none(rs, rs.len() as int);
    assert(role_violation(rs[k]) is None);
}

/// Law: when validation reports nothing, every holdout fixture has at
/// least one vulnerable instruction.
pub proof fn lemma_validated_holdout_vulnerable(fs: Seq<CorpusFixV>, ids: Seq<Seq<u8>>, k: int)
    requires
        validate_spec(fs, ids).len() == 0,
        0 <= k < fs.len(),
        fs[k].role == Role::Holdout,
    ensures
        count_vuln(fs[k].instructions) >= 1,
{
    let rs = resolved_upto(fs, ids, fs.len() as int);
    lemma_unknown_all_known(fs, ids, fs.len() as int);
    lemma_resolved_all(fs, ids, fs.len() as int);
    assert(fs.take(fs.len() as int) =~= fs);
    lemma_role_none(rs, rs.len() as int);
    assert(role_violation(rs[k]) is None);
}

/// Whether a finding is the leakage finding of class `c`.
pub open spec fn is_leak_of(f: FindingV, c: Seq<u8>) -> bool {
    match f {
        FindingV::PartitionLeakage { class_id, .. } => class_id == c,
        _ => false,
    }
}

/// Occurrences of the leakage finding for class `c`.
pub open spec fn count_leak(s: Seq<FindingV>, c: Seq<u8>) -> nat
    decreases s.len(),
{
    if s.len() == 0 {
        0
    } else {
        count_leak(s.drop_last(), c) + if is_leak_of(s.last(), c) {
            1nat
        } else {
            0nat
        }
    }
}

proof fn lemma_count_leak_add(a: Seq<FindingV>, b: Seq<FindingV>, c: Seq<u8>)
    ensures
        count_leak(a + b, c) == count_leak(a, c) + count_leak(b, c),
    decreases b.len(),
{
    if b.len() == 0 {
        assert(a + b =~= a);
    } else {
        assert((a + b).drop_last() =~= a + b.drop_last());
        assert((a + b).last() == b.last());
        lemma_count_leak_add(a, b.drop_last(), c);
    }
}

proof fn lemma_count_leak_unknown_fixture(f: CorpusFixV, ids: Seq<Seq<u8>>, j: int, c: Seq<u8>)
    ensures
        count_leak(unknown_in_fixture(f, ids, j), c) == 0,
    decreases j,
{
    if 0 < j <= f.instructions.len() {
        lemma_count_leak_unknown_fixture(f, ids, j - 1, c);
        let tail = match f.instructions[j - 1].tag {
            Some(t) => if !seq_contains(ids, t) {
                seq![
                    FindingV::UnknownClass {
                        path: f.path,
                        instruction: f.instructions[j - 1].name,
                        class_id: t,
                    },
                ]
            } else {
                Seq::<FindingV>::empty()
            },
            None => Seq::<FindingV>::empty(),
        };
        lemma_count_leak_add(unknown_in_fixture(f, ids, j - 1), tail, c);
        if tail.len() > 0 {
            assert(tail.drop_last() =~= Seq::<FindingV>::empty());
            assert(count_leak(Seq::<FindingV>::empty(), c) == 0);
            assert(!is_leak_of(tail.last(), c));
            assert(count_leak(tail, c) == 0);
        } else {
            assert(tail =~= Seq::<FindingV>::empty());
            assert(count_leak(tail, c) == 0);
        }
    }
}

proof fn lemma_count_leak_unknown(fs: Seq<CorpusFixV>, ids: Seq<Seq<u8>>, n: int, c: Seq<u8>)
    ensures
        count_leak(unknown_findings(fs, ids, n), c) == 0,
    decreases n,
{
    if 0 < n <= fs.len() {
        lemma_count_leak_unknown(fs, ids, n - 1, c);
        lemma_count_leak_unknown_fixture(fs[n - 1], ids, fs[n - 1].instructions.len() as int, c);
        lemma_count_leak_add(
            unknown_findings(fs, ids, n - 1),
            unknown_in_fixture(fs[n - 1], ids, fs[n - 1].instructions.len() as int),
            c,
        );
    }
}

proof fn lemma_count_leak_role(rs: Seq<CorpusFixV>, n: int, c: Seq<u8>)
    ensures
        count_leak(role_findings(rs, n), c) == 0,
    decreases n,
{
    if 0 < n <= rs.len() {
        lemma_count_leak_role(rs, n - 1, c);
        let tail = match role_violation(rs[n - 1]) {
            Some(f) => seq![f],
            None => Seq::<FindingV>::empty(),
        };
        lemma_count_leak_add(role_findings(rs, n - 1), tail, c);
        if tail.len() > 0 {
            assert(tail.drop_last() =~= Seq::<FindingV>::empty());
            assert(count_leak(Seq::<FindingV>::empty(), c) == 0);
            assert(!is_leak_of(tail.last(), c));
            assert(count_leak(tail, c) == 0);
        } else {
            assert(tail =~= Seq::<FindingV>::empty());
            assert(count_leak(tail, c) == 0);
        }
    }
}

proof fn lemma_count_leak_coverage(
    ids: Seq<Seq<u8>>,
    rs: Seq<CorpusFixV>,
    n: int,
    c: Seq<u8>,
)
    ensures
        count_leak(coverage_findings(ids, rs, n), c) == 0,
    decreases n,
{
    if 0 < n <= ids.len() {
        lemma_count_leak_coverage(ids, rs, n - 1, c);
        let tail = match coverage_finding(rs, ids[n - 1]) {
            Some(f) => seq![f],
            None => Seq::<FindingV>::empty(),
        };
        lemma_count_leak_add(coverage_findings(ids, rs, n - 1), tail, c);
        if tail.len() > 0 {
            assert(tail.drop_last() =~= Seq::<FindingV>::empty());
            assert(count_leak(Seq::<FindingV>::empty(), c) == 0);
            assert(!is_leak_of(tail.last(), c));
            assert(count_leak(tail, c) == 0);
        } else {
            assert(tail =~= Seq::<FindingV>::empty());
            assert(count_leak(tail, c) == 0);
        }
    }
}

proof fn lemma_count_leak_collision(rs: Seq<CorpusFixV>, n: int, c: Seq<u8>)
    ensures
        count_leak(collision_findings(rs, n), c) == 0,
    decreases n,
{
    if 0 < n <= rs.len() {
        lemma_count_leak_collision(rs, n - 1, c);
        let p = partner_of(rs, n - 1);
        let tail: Seq<FindingV> = if first_with_id(rs, n - 1) && p < rs.len() {
            seq![
                FindingV::IdentifierCollision {
                    program_id: rs[n - 1].program_id,
                    first_path: rs[n - 1].path,
                    first_role: rs[n - 1].role,
                    second_path: rs[p].path,
                    second_role: rs[p].role,
                },
            ]
        } else {
            Seq::empty()
        };
        lemma_count_leak_add(collision_findings(rs, n - 1), tail, c);
        if tail.len() > 0 {
            assert(tail.drop_last() =~= Seq::<FindingV>::empty());
            assert(count_leak(Seq::<FindingV>::empty(), c) == 0);
            assert(!is_leak_of(tail.last(), c));
            assert(count_leak(tail, c) == 0);
        } else {
            assert(tail =~= Seq::<FindingV>::empty());
            assert(count_leak(tail, c) == 0);
        }
    }
}

proof fn lemma_count_leak_leakage(
    ids: Seq<Seq<u8>>,
    rs: Seq<CorpusFixV>,
    n: int,
    c: Seq<u8>,
)
    requires
        distinct_ids(ids),
        0 <= n <= ids.len(),
    ensures
        count_leak(leakage_findings(ids, rs, n), c) == if seq_contains(ids.take(n), c) && leaked(
            rs,
            c,
        ) {
            1nat
        } else {
            0nat
        },
    decreases n,
{
    if n > 0 {
        lemma_count_leak_leakage(ids, rs, n - 1, c);
        let tail: Seq<FindingV> = if leaked(rs, ids[n - 1]) {
            seq![
                FindingV::PartitionLeakage {
                    class_id: ids[n - 1],
                    in_control: role_has_class(rs, Role::Control, ids[n - 1]),
                    in_seeded: role_has_class(rs, Role::Seeded, ids[n - 1]),
                },
            ]
        } else {
            Seq::empty()
        };
        lemma_count_leak_add(leakage_findings(ids, rs, n - 1), tail, c);
        if tail.len() > 0 {
            assert(tail.drop_last() =~= Seq::<FindingV>::empty());
            assert(count_leak(Seq::<FindingV>::empty(), c) == 0);
            assert(is_leak_of(tail.last(), ids[n - 1]));
            if ids[n - 1] == c {
                assert(count_leak(tail, c) == 1);
            } else {
                assert(count_leak(tail, c) == 0);
            }
        } else {
            assert(tail =~= Seq::<FindingV>::empty());
            assert(count_leak(tail, c) == 0);
        }
        assert(seq_contains(ids.take(n - 1), c) ==> seq_contains(ids.take(n), c));
        if seq_contains(ids.take(n), c) && !seq_contains(ids.take(n - 1), c) {
            assert(ids[n - 1] == c);
        }
        if ids[n - 1] == c {
            assert(!seq_contains(ids.take(n - 1), c));
            assert(seq_contains(ids.take(n), c)) by {
                assert(ids.take(n)[n - 1] == c);
            }
        }
    } else {
        assert(!seq_contains(ids.take(0), c));
    }
}

/// Law: validation reports the leakage of class `c` exactly once when `c`
/// is registered and leaks between holdout and a calibration partition
/// among the resolved fixtures, and never otherwise.
pub proof fn lemma_leakage_exactly_once(fs: Seq<CorpusFixV>, ids: Seq<Seq<u8>>, c: Seq<u8>)
    requires
        distinct_ids(ids),
    ensures
        count_leak(validate_spec(fs, ids), c) == if seq_contains(ids, c) && leaked(
            resolved_upto(fs, ids, fs.len() as int),
            c,
        ) {
            1nat
        } else {
            0nat
        },
{
    let rs = resolved_upto(fs, ids, fs.len() as int);
    let a = unknown_findings(fs, ids, fs.len() as int);
    let b = role_findings(rs, rs.len() as int);
    let l = leakage_findings(ids, rs, ids.len() as int);
    let d = coverage_findings(ids, rs, ids.len() as int);
    let e = collision_findings(rs, rs.len() as int);
    lemma_count_leak_unknown(fs, ids, fs.len() as int, c);
    lemma_count_leak_role(rs, rs.len() as int, c);
    lemma_count_leak_leakage(ids, rs, ids.len() as int, c);
    lemma_count_leak_coverage(ids, rs, ids.len() as int, c);
    lemma_count_leak_collision(rs, rs.len() as int, c);
    lemma_count_leak_add(a, b, c);
    lemma_count_leak_add(a + b, l, c);
    lemma_count_leak_add(a + b + l, d, c);
    lemma_count_leak_add(a + b + l + d, e, c);
    assert(ids.take(ids.len() as int) =~= ids);
}

// ----- executable helpers -----

pub proof fn lemma_findings_view_push(s: Seq<Finding>, x: Finding)
    ensures
        findings_view(s.push(x)) == findings_view(s).push(finding_view(x)),
{
    assert(findings_view(s.push(x)) =~~= findings_view(s).push(finding_view(x)));
}

pub proof fn lemma_cfs_view_push(s: Seq<CorpusFixture>, x: CorpusFixture)
    ensures
        cfs_view(s.push(x)) == cfs_view(s).push(cf_view(x)),
{
    assert(cfs_view(s.push(x)) =~~= cfs_view(s).push(cf_view(x)));
}

fn clone_instruction(i: &Instruction) -> (out: Instruction)
    ensures
        inst_view(out) == inst_view(*i),
{
    let mut accounts: Vec<Vec<u8>> = Vec::new();
    let mut k: usize = 0;
    proof {
        assert(crate::extract::seq_views(accounts@) =~= crate::extract::seq_views(
            i.accounts@,
        ).subrange(0, 0));
    }
    while k < i.accounts.len()
        invariant
            k <= i.accounts@.len(),
            crate::extract::seq_views(accounts@) == crate::extract::seq_views(
                i.accounts@,
            ).subrange(0, k as int),
        decreases i.accounts@.len() - k,
    {
        let cl = clone_bytes(&i.accounts[k]);
        let ghost gcl = cl;
        let ghost ob = accounts@;
        accounts.push(cl);
        proof {
            crate::extract::lemma_seq_views_push(ob, gcl);
            assert(gcl@ == crate::extract::seq_views(i.accounts@)[k as int]);
            assert(crate::extract::seq_views(accounts@) =~= crate::extract::seq_views(
                i.accounts@,
            ).subrange(0, k + 1));
        }
        k = k + 1;
    }
    proof {
        assert(crate::extract::seq_views(i.accounts@).subrange(
            0,
            crate::extract::seq_views(i.accounts@).len() as int,
        ) =~= crate::extract::seq_views(i.accounts@));
    }
    let tag: Option<Vec<u8>> = match &i.tag {
        Some(t) => Some(clone_bytes(t)),
        None => None,
    };
    let out = Instruction { name: clone_bytes(&i.name), accounts, tag };
    proof {
        assert(inst_view(out) =~~= inst_view(*i));
    }
    out
}

fn clone_fixture(f: &CorpusFixture) -> (out: CorpusFixture)
    ensures
        cf_view(out) == cf_view(*f),
{
    let mut instructions: Vec<Instruction> = Vec::new();
    let mut k: usize = 0;
    proof {
        assert(insts_view(instructions@) =~= insts_view(f.instructions@).subrange(0, 0));
    }
    while k < f.instructions.len()
        invariant
            k <= f.instructions@.len(),
            insts_view(instructions@) == insts_view(f.instructions@).subrange(0, k as int),
        decreases f.instructions@.len() - k,
    {
        let cl = clone_instruction(&f.instructions[k]);
        let ghost gcl = cl;
        let ghost ob = instructions@;
        instructions.push(cl);
        proof {
            crate::extract::lemma_insts_view_push(ob, gcl);
            assert(inst_view(gcl) == insts_view(f.instructions@)[k as int]);
            assert(insts_view(instructions@) =~= insts_view(f.instructions@).subrange(0, k + 1));
        }
        k = k + 1;
    }
    proof {
        assert(insts_view(f.instructions@).subrange(
            0,
            insts_view(f.instructions@).len() as int,
        ) =~= insts_view(f.instructions@));
    }
    let out = CorpusFixture {
        path: clone_bytes(&f.path),
        program_id: clone_bytes(&f.program_id),
        role: f.role,
        version: clone_bytes(&f.version),
        instructions,
    };
    proof {
        assert(cf_view(out) =~~= cf_view(*f));
    }
    out
}

fn tags_known_exec(f: &CorpusFixture, reg: &Registry) -> (r: bool)
    ensures
        r == fixture_tags_known(cf_view(*f), reg.ids()),
{
    let mut j: usize = 0;
    while j < f.instructions.len()
        invariant
            j <= f.instructions@.len(),
            forall|m: int| 0 <= m < j ==> tag_known(#[trigger] cf_view(*f).instructions[m], reg.ids()),
        decreases f.instructions@.len() - j,
    {
        match &f.instructions[j].tag {
            Some(c) => {
                if !reg.contains(c) {
                    proof {
                        assert(cf_view(*f).instructions[j as int].tag == Some(c@));
                    }
                    return false;
                }
            },
            None => {},
        }
        j = j + 1;
    }
    true
}

fn count_vuln_exec(instrs: &Vec<Instruction>) -> (n: usize)
    ensures
        n == count_vuln(insts_view(instrs@)),
{
    let mut n: usize = 0;
    let mut k: usize = 0;
    proof {
        assert(insts_view(instrs@).subrange(0, 0) =~= Seq::<InstV>::empty());
    }
    while k < instrs.len()
        invariant
            k <= instrs@.len(),
            n == count_vuln(insts_view(instrs@).subrange(0, k as int)),
            n <= k,
        decreases instrs@.len() - k,
    {
        proof {
            assert(insts_view(instrs@).subrange(0, k + 1).drop_last() =~= insts_view(
                instrs@,
            ).subrange(0, k as int));
            assert(insts_view(instrs@).subrange(0, k + 1).last() == inst_view(instrs@[k as int]));
        }
        if instrs[k].tag.is_some() {
            n = n + 1;
        }
        k = k + 1;
    }
    proof {
        assert(insts_view(instrs@).subrange(0, instrs@.len() as int) =~= insts_view(instrs@));
    }
    n
}

fn first_vuln_tag_exec(instrs: &Vec<Instruction>) -> (r: Option<Vec<u8>>)
    ensures
        opt_view(r) == first_vuln_tag(insts_view(instrs@)),
{
    proof {
        assert(insts_view(instrs@).skip(0) =~= insts_view(instrs@));
    }
    first_vuln_from(instrs, 0)
}

fn first_vuln_from(instrs: &Vec<Instruction>, k: usize) -> (r: Option<Vec<u8>>)
    requires
        k <= instrs@.len(),
    ensures
        opt_view(r) == first_vuln_tag(insts_view(instrs@).skip(k as int)),
    decreases instrs@.len() - k,
{
    if k >= instrs.len() {
        proof {
            assert(insts_view(instrs@).skip(k as int).len() == 0);
        }
        None
    } else {
        proof {
            assert(insts_view(instrs@).skip(k as int)[0] == inst_view(instrs@[k as int]));
            assert(insts_view(instrs@).skip(k as int).drop_first() =~= insts_view(
                instrs@,
            ).skip(k + 1));
        }
        match &instrs[k].tag {
            Some(c) => Some(clone_bytes(c)),
            None => first_vuln_from(instrs, k + 1),
        }
    }
}

fn role_has_class_exec(rs: &Vec<CorpusFixture>, role: Role, c: &Vec<u8>) -> (r: bool)
    ensures
        r == role_has_class(cfs_view(rs@), role, c@),
{
    let mut k: usize = 0;
    while k < rs.len()
        invariant
            k <= rs@.len(),
            forall|m: int, j: int|
                0 <= m < k && 0 <= j < cfs_view(rs@)[m].instructions.len() ==> !(cfs_view(
                    rs@,
                )[m].role == role && cfs_view(rs@)[m].instructions[j].tag == Some(c@)),
        decreases rs@.len() - k,
    {
        if rs[k].role == role {
            let mut j: usize = 0;
            while j < rs[k].instructions.len()
                invariant
                    k < rs@.len(),
                    j <= rs@[k as int].instructions@.len(),
                    rs@[k as int].role == role,
                    forall|m: int, jj: int|
                        0 <= m < k && 0 <= jj < cfs_view(rs@)[m].instructions.len() ==> !(cfs_view(
                            rs@,
                        )[m].role == role && cfs_view(rs@)[m].instructions[jj].tag == Some(c@)),
                    forall|jj: int|
                        0 <= jj < j ==> cfs_view(rs@)[k as int].instructions[jj].tag != Some(c@),
                decreases rs@[k as int].instructions@.len() - j,
            {
                match &rs[k].instructions[j].tag {
                    Some(t) => {
                        if bytes_eq(t, c) {
                            proof {
                                assert(cfs_view(rs@)[k as int].instructions[j as int].tag == Some(
                                    c@,
                                ));
                            }
                            return true;
                        }
                    },
                    None => {},
                }
                proof {
                    assert(cfs_view(rs@)[k as int].instructions[j as int].tag != Some(c@));
                }
                j = j + 1;
            }
        } else {
            proof {
                assert(cfs_view(rs@)[k as int].role != role);
            }
        }
        k = k + 1;
    }
    false
}

fn class_vuln_somewhere_exec(rs: &Vec<CorpusFixture>, c: &Vec<u8>) -> (r: bool)
    ensures
        r == class_vuln_somewhere(cfs_view(rs@), c@),
{
    let mut k: usize = 0;
    while k < rs.len()
        invariant
            k <= rs@.len(),
            forall|m: int, j: int|
                0 <= m < k && 0 <= j < cfs_view(rs@)[m].instructions.len() ==> cfs_view(
                    rs@,
                )[m].instructions[j].tag != Some(c@),
        decreases rs@.len() - k,
    {
        let mut j: usize = 0;
        while j < rs[k].instructions.len()
            invariant
                k < rs@.len(),
                j <= rs@[k as int].instructions@.len(),
                forall|m: int, jj: int|
                    0 <= m < k && 0 <= jj < cfs_view(rs@)[m].instructions.len() ==> cfs_view(
                        rs@,
                    )[m].instructions[jj].tag != Some(c@),
                forall|jj: int|
                    0 <= jj < j ==> cfs_view(rs@)[k as int].instructions[jj].tag != Some(c@),
            decreases rs@[k as int].instructions@.len() - j,
        {
            match &rs[k].instructions[j].tag {
                Some(t) => {
                    if bytes_eq(t, c) {
                        proof {
                            assert(cfs_view(rs@)[k as int].instructions[j as int].tag == Some(c@));
                        }
                        return true;
                    }
                },
                None => {},
            }
            proof {
                assert(cfs_view(rs@)[k as int].instructions[j as int].tag != Some(c@));
            }
            j = j + 1;
        }
        k = k + 1;
    }
    false
}

fn safe_with_len_exec(rs: &Vec<CorpusFixture>, len: usize) -> (r: bool)
    ensures
        r == safe_with_len(cfs_view(rs@), len as nat),
{
    let mut k: usize = 0;
    while k < rs.len()
        invariant
            k <= rs@.len(),
            forall|m: int, j: int|
                0 <= m < k && 0 <= j < cfs_view(rs@)[m].instructions.len() ==> !(cfs_view(
                    rs@,
                )[m].role != Role::Holdout && cfs_view(rs@)[m].instructions[j].tag is None
                    && cfs_view(rs@)[m].instructions[j].accounts.len() == len),
        decreases rs@.len() - k,
    {
        let mut j: usize = 0;
        while j < rs[k].instructions.len()
            invariant
                k < rs@.len(),
                j <= rs@[k as int].instructions@.len(),
                forall|m: int, jj: int|
                    0 <= m < k && 0 <= jj < cfs_view(rs@)[m].instructions.len() ==> !(cfs_view(
                        rs@,
                    )[m].role != Role::Holdout && cfs_view(rs@)[m].instructions[jj].tag is None
                        && cfs_view(rs@)[m].instructions[jj].accounts.len() == len),
                forall|jj: int|
                    0 <= jj < j ==> !(cfs_view(rs@)[k as int].role != Role::Holdout && cfs_view(
                        rs@,
                    )[k as int].instructions[jj].tag is None && cfs_view(
                        rs@,
                    )[k as int].instructions[jj].accounts.len() == len),
            decreases rs@[k as int].instructions@.len() - j,
        {
            if !(rs[k].role == Role::Holdout) && rs[k].instructions[j].tag.is_none()
                && rs[k].instructions[j].accounts.len() == len {
                proof {
                    assert(cfs_view(rs@)[k as int].instructions[j as int].accounts.len() == len);
                }
                return true;
            }
            proof {
                assert(cfs_view(rs@)[k as int].instructions[j as int] == inst_view(
                    rs@[k as int].instructions@[j as int],
                ));
            }
            j = j + 1;
        }
        k = k + 1;
    }
    false
}

fn has_safe_counterpart_exec(rs: &Vec<CorpusFixture>, c: &Vec<u8>) -> (r: bool)
    ensures
        r == has_safe_counterpart(cfs_view(rs@), c@),
{
    let mut k: usize = 0;
    while k < rs.len()
        invariant
            k <= rs@.len(),
            forall|m: int, j: int|
                0 <= m < k && 0 <= j < cfs_view(rs@)[m].instructions.len() ==> !(cfs_view(
                    rs@,
                )[m].instructions[j].tag == Some(c@) && safe_with_len(
                    cfs_view(rs@),
                    cfs_view(rs@)[m].instructions[j].accounts.len(),
                )),
        decreases rs@.len() - k,
    {
        let mut j: usize = 0;
        while j < rs[k].instructions.len()
            invariant
                k < rs@.len(),
                j <= rs@[k as int].instructions@.len(),
                forall|m: int, jj: int|
                    0 <= m < k && 0 <= jj < cfs_view(rs@)[m].instructions.len() ==> !(cfs_view(
                        rs@,
                    )[m].instructions[jj].tag == Some(c@) && safe_with_len(
                        cfs_view(rs@),
                        cfs_view(rs@)[m].instructions[jj].accounts.len(),
                    )),
                forall|jj: int|
                    0 <= jj < j ==> !(cfs_view(rs@)[k as int].instructions[jj].tag == Some(c@)
                        && safe_with_len(
                        cfs_view(rs@),
                        cfs_view(rs@)[k as int].instructions[jj].accounts.len(),
                    )),
            decreases rs@[k as int].instructions@.len() - j,
        {
            let mut hit = false;
            match &rs[k].instructions[j].tag {
                Some(t) => {
                    if bytes_eq(t, c) {
                        hit = true;
                    }
                },
                None => {},
            }
            if hit {
                if safe_with_len_exec(rs, rs[k].instructions[j].accounts.len()) {
                    proof {
                        assert(cfs_view(rs@)[k as int].instructions[j as int].tag == Some(c@));
                        assert(cfs_view(rs@)[k as int].instructions[j as int].accounts.len()
                            == rs@[k as int].instructions@[j as int].accounts@.len());
                    }
                    return true;
                }
            }
            proof {
                assert(cfs_view(rs@)[k as int].instructions[j as int] == inst_view(
                    rs@[k as int].instructions@[j as int],
                ));
            }
            j = j + 1;
        }
        k = k + 1;
    }
    false
}

fn partner_exec(rs: &Vec<CorpusFixture>, k: usize) -> (r: usize)
    requires
        k < rs@.len(),
    ensures
        r as int == partner_of(cfs_view(rs@), k as int),
        r <= rs@.len(),
{
    let mut m: usize = 0;
    while m < rs.len()
        invariant
            m <= rs@.len(),
            k < rs@.len(),
            partner_of(cfs_view(rs@), k as int) == partner_from(
                cfs_view(rs@),
                k as int,
                m as int,
            ),
        decreases rs@.len() - m,
    {
        proof {
            assert(cfs_view(rs@)[m as int].program_id == rs@[m as int].program_id@);
            assert(cfs_view(rs@)[k as int].program_id == rs@[k as int].program_id@);
            assert(cfs_view(rs@)[m as int].role == rs@[m as int].role);
            assert(cfs_view(rs@)[k as int].role == rs@[k as int].role);
        }
        if bytes_eq(&rs[m].program_id, &rs[k].program_id) && !(rs[m].role == rs[k].role) {
            return m;
        }
        proof {
            assert(partner_from(cfs_view(rs@), k as int, m as int) == partner_from(
                cfs_view(rs@),
                k as int,
                m + 1,
            ));
        }
        m = m + 1;
    }
    m
}

fn first_with_id_exec(rs: &Vec<CorpusFixture>, k: usize) -> (r: bool)
    requires
        k < rs@.len(),
    ensures
        r == first_with_id(cfs_view(rs@), k as int),
{
    let mut m: usize = 0;
    while m < k
        invariant
            m <= k < rs@.len(),
            forall|mm: int|
                0 <= mm < m ==> cfs_view(rs@)[mm].program_id != cfs_view(rs@)[k as int].program_id,
        decreases k - m,
    {
        if bytes_eq(&rs[m].program_id, &rs[k].program_id) {
            proof {
                assert(cfs_view(rs@)[m as int].program_id == rs@[m as int].program_id@);
                assert(cfs_view(rs@)[k as int].program_id == rs@[k as int].program_id@);
            }
            return false;
        }
        m = m + 1;
    }
    true
}

// ----- the validator -----

/// Runs the five validation passes, in order, over partition-tagged
/// fixtures and the registry. The output is exactly `validate_spec` of
/// the inputs: a pure function of the corpus and the taxonomy.
pub fn validate(fixtures: &Vec<CorpusFixture>, reg: &Registry) -> (out: Vec<Finding>)
    ensures
        findings_view(out@) == validate_spec(cfs_view(fixtures@), reg.ids()),
{
    let ghost fsv = cfs_view(fixtures@);
    let ghost ids = reg.ids();
    let mut out: Vec<Finding> = Vec::new();

    // pass 1: unknown tags
    let mut k: usize = 0;
    proof {
        assert(findings_view(out@) =~~= unknown_findings(fsv, ids, 0));
    }
    while k < fixtures.len()
        invariant
            k <= fixtures@.len(),
            fsv == cfs_view(fixtures@),
            ids == reg.ids(),
            findings_view(out@) == unknown_findings(fsv, ids, k as int),
        decreases fixtures@.len() - k,
    {
        let f = &fixtures[k];
        let mut j: usize = 0;
        proof {
            assert(unknown_in_fixture(fsv[k as int], ids, 0) =~~= Seq::<FindingV>::empty());
            assert(findings_view(out@) =~~= unknown_findings(fsv, ids, k as int)
                + unknown_in_fixture(fsv[k as int], ids, 0));
        }
        while j < f.instructions.len()
            invariant
                k < fixtures@.len(),
                j <= f.instructions@.len(),
                f == &fixtures[k as int],
                fsv == cfs_view(fixtures@),
                ids == reg.ids(),
                findings_view(out@) == unknown_findings(fsv, ids, k as int) + unknown_in_fixture(
                    fsv[k as int],
                    ids,
                    j as int,
                ),
            decreases f.instructions@.len() - j,
        {
            match &f.instructions[j].tag {
                Some(c) => {
                    if !reg.contains(c) {
                        let finding = Finding::UnknownClass {
                            path: clone_bytes(&f.path),
                            instruction: clone_bytes(&f.instructions[j].name),
                            class_id: clone_bytes(c),
                        };
                        let ghost gf = finding;
                        let ghost ob = out@;
                        out.push(finding);
                        proof {
                            lemma_findings_view_push(ob, gf);
                        }
                    }
                },
                None => {},
            }
            proof {
                assert(fsv[k as int] == cf_view(fixtures@[k as int]));
                assert(fsv[k as int].instructions[j as int] == inst_view(
                    fixtures@[k as int].instructions@[j as int],
                ));
                assert(findings_view(out@) =~~= unknown_findings(fsv, ids, k as int)
                    + unknown_in_fixture(fsv[k as int], ids, j + 1));
            }
            j = j + 1;
        }
        proof {
            assert(findings_view(out@) =~~= unknown_findings(fsv, ids, k + 1));
        }
        k = k + 1;
    }

    // the resolved fixtures
    let mut rs: Vec<CorpusFixture> = Vec::new();
    let mut k: usize = 0;
    proof {
        assert(cfs_view(rs@) =~~= resolved_upto(fsv, ids, 0));
    }
    while k < fixtures.len()
        invariant
            k <= fixtures@.len(),
            fsv == cfs_view(fixtures@),
            ids == reg.ids(),
            cfs_view(rs@) == resolved_upto(fsv, ids, k as int),
            findings_view(out@) == unknown_findings(fsv, ids, fsv.len() as int),
        decreases fixtures@.len() - k,
    {
        if tags_known_exec(&fixtures[k], reg) {
            let cl = clone_fixture(&fixtures[k]);
            let ghost gcl = cl;
            let ghost ob = rs@;
            rs.push(cl);
            proof {
                lemma_cfs_view_push(ob, gcl);
                assert(cf_view(gcl) == fsv[k as int]);
            }
        }
        proof {
            assert(fsv[k as int] == cf_view(fixtures@[k as int]));
            assert(cfs_view(rs@) =~~= resolved_upto(fsv, ids, k + 1));
        }
        k = k + 1;
    }
    let ghost rsv = cfs_view(rs@);

    // pass 2: partition-role consistency
    let ghost base1 = findings_view(out@);
    let mut k: usize = 0;
    proof {
        assert(findings_view(out@) =~~= base1 + role_findings(rsv, 0));
    }
    while k < rs.len()
        invariant
            k <= rs@.len(),
            rsv == cfs_view(rs@),
            findings_view(out@) == base1 + role_findings(rsv, k as int),
        decreases rs@.len() - k,
    {
        proof {
            assert(rsv[k as int] == cf_view(rs@[k as int]));
        }
        let n = count_vuln_exec(&rs[k].instructions);
        if rs[k].role == Role::Control && n > 0 {
            let tag = first_vuln_tag_exec(&rs[k].instructions);
            let finding = Finding::PartitionRoleViolation {
                path: clone_bytes(&rs[k].path),
                class_id: tag,
            };
            let ghost gf = finding;
            let ghost ob = out@;
            out.push(finding);
            proof {
                lemma_findings_view_push(ob, gf);
            }
        } else if rs[k].role == Role::Holdout && n == 0 {
            let finding = Finding::PartitionRoleViolation {
                path: clone_bytes(&rs[k].path),
                class_id: None,
            };
            let ghost gf = finding;
            let ghost ob = out@;
            out.push(finding);
            proof {
                lemma_findings_view_push(ob, gf);
            }
        }
        proof {
            assert(findings_view(out@) =~~= base1 + role_findings(rsv, k + 1));
        }
        k = k + 1;
    }

    // pass 3: leakage
    let ghost base2 = findings_view(out@);
    let mut k: usize = 0;
    proof {
        assert(findings_view(out@) =~~= base2 + leakage_findings(ids, rsv, 0));
    }
    while k < reg.classes.len()
        invariant
            k <= reg.classes@.len(),
            ids == reg.ids(),
            rsv == cfs_view(rs@),
            findings_view(out@) == base2 + leakage_findings(ids, rsv, k as int),
        decreases reg.classes@.len() - k,
    {
        let c = &reg.classes[k].id;
        proof {
            assert(ids[k as int] == c@);
        }
        let in_holdout = role_has_class_exec(&rs, Role::Holdout, c);
        let in_control = role_has_class_exec(&rs, Role::Control, c);
        let in_seeded = role_has_class_exec(&rs, Role::Seeded, c);
        if in_holdout && (in_control || in_seeded) {
            let finding = Finding::PartitionLeakage {
                class_id: clone_bytes(c),
                in_control,
                in_seeded,
            };
            let ghost gf = finding;
            let ghost ob = out@;
            out.push(finding);
            proof {
                lemma_findings_view_push(ob, gf);
            }
        }
        proof {
            assert(findings_view(out@) =~~= base2 + leakage_findings(ids, rsv, k + 1));
        }
        k = k + 1;
    }

    // pass 4: coverage
    let ghost base3 = findings_view(out@);
    let mut k: usize = 0;
    proof {
        assert(findings_view(out@) =~~= base3 + coverage_findings(ids, rsv, 0));
    }
    while k < reg.classes.len()
        invariant
            k <= reg.classes@.len(),
            ids == reg.ids(),
            rsv == cfs_view(rs@),
            findings_view(out@) == base3 + coverage_findings(ids, rsv, k as int),
        decreases reg.classes@.len() - k,
    {
        let c = &reg.classes[k].id;
        proof {
            assert(ids[k as int] == c@);
        }
        if !class_vuln_somewhere_exec(&rs, c) {
            let finding = Finding::CoverageGap { class_id: clone_bytes(c), side: Side::Vulnerable };
            let ghost gf = finding;
            let ghost ob = out@;
            out.push(finding);
            proof {
                lemma_findings_view_push(ob, gf);
            }
        } else if !has_safe_counterpart_exec(&rs, c) {
            let finding = Finding::CoverageGap { class_id: clone_bytes(c), side: Side::Safe };
            let ghost gf = finding;
            let ghost ob = out@;
            out.push(finding);
            proof {
                lemma_findings_view_push(ob, gf);
            }
        }
        proof {
            assert(findings_view(out@) =~~= base3 + coverage_findings(ids, rsv, k + 1));
        }
        k = k + 1;
    }

    // pass 5: identifier collisions
    let ghost base4 = findings_view(out@);
    let mut k: usize = 0;
    proof {
        assert(findings_view(out@) =~~= base4 + collision_findings(rsv, 0));
    }
    while k < rs.len()
        invariant
            k <= rs@.len(),
            rsv == cfs_view(rs@),
            findings_view(out@) == base4 + collision_findings(rsv, k as int),
        decreases rs@.len() - k,
    {
        let fwi = first_with_id_exec(&rs, k);
        let p = partner_exec(&rs, k);
        if fwi && p < rs.len() {
            proof {
                assert(rsv[k as int] == cf_view(rs@[k as int]));
                assert(rsv[p as int] == cf_view(rs@[p as int]));
            }
            let finding = Finding::IdentifierCollision {
                program_id: clone_bytes(&rs[k].program_id),
                first_path: clone_bytes(&rs[k].path),
                first_role: rs[k].role,
                second_path: clone_bytes(&rs[p].path),
                second_role: rs[p].role,
            };
            let ghost gf = finding;
            let ghost ob = out@;
            out.push(finding);
            proof {
                lemma_findings_view_push(ob, gf);
            }
        }
        proof {
            assert(rsv[k as int] == cf_view(rs@[k as int]));
        }
        proof {
            assert(findings_view(out@) =~~= base4 + collision_findings(rsv, k + 1));
        }
        k = k + 1;
    }

    proof {
        assert(rsv.len() == rs@.len());
        assert(findings_view(out@) =~~= validate_spec(fsv, ids));
    }
    out
}

/// Whether any blocking finding is present: the corpus fails acceptance.
pub fn has_blocking(findings: &Vec<Finding>) -> (r: bool)
    ensures
        r == exists|k: int|
            0 <= k < findings@.len() && is_blocking(finding_view(findings@[k])),
{
    let mut k: usize = 0;
    while k < findings.len()
        invariant
            k <= findings@.len(),
            forall|m: int| 0 <= m < k ==> !is_blocking(finding_view(findings@[m])),
        decreases findings@.len() - k,
    {
        let blocking = match &findings[k] {
            Finding::CoverageGap { .. } => false,
            _ => true,
        };
        if blocking {
            return true;
        }
        k = k + 1;
    }
    false
}

} // verus!
