//! Corpus assembly: classifies and extracts every raw fixture, collects
//! the structural findings, and runs validation over what assembled.

use vstd::prelude::*;
use crate::extract::{extract_fixture, extract_spec, ExtractErrorKind};
use crate::partition::{classify, classify_spec, GroupV};
use crate::taxonomy::Registry;
use crate::bytes::clone_bytes;
use crate::validate::{
    cf_view, cfs_view, finding_view, findings_view, validate, validate_spec, CorpusFixture,
    CorpusFixV, Finding, FindingV,
};

verus! {

/// One fixture as read from the corpus: its path relative to the corpus
/// root, and its source text.
pub struct RawFixture {
    pub path: Vec<u8>,
    pub source: Vec<u8>,
}

#[verifier::ext_equal]
pub ghost struct RawV {
    pub path: Seq<u8>,
    pub source: Seq<u8>,
}

pub open spec fn raw_view(r: RawFixture) -> RawV {
    RawV { path: r.path@, source: r.source@ }
}

pub open spec fn raws_view(v: Seq<RawFixture>) -> Seq<RawV> {
    Seq::new(v.len(), |k: int| raw_view(v[k]))
}

/// What one raw fixture assembles to: a partition-tagged fixture, or the
/// structural finding that disqualifies it.
pub open spec fn assemble_one(r: RawV) -> Result<CorpusFixV, FindingV> {
    match classify_spec(r.path) {
        None => Err(FindingV::UnrecognizedGroup { path: r.path }),
        Some(g) => match extract_spec(r.path, r.source) {
            Err(e) => Err(
                match e.kind {
                    ExtractErrorKind::UnattributedMarker => FindingV::UnattributedMarker {
                        path: r.path,
                    },
                    ExtractErrorKind::DuplicateTagInInstruction =>
                        FindingV::DuplicateTagInInstruction {
                        path: r.path,
                        instruction: e.instruction,
                    },
                },
            ),
            Ok(fx) => Ok(
                CorpusFixV {
                    path: fx.path,
                    program_id: fx.program_id,
                    role: g.role,
                    version: g.version,
                    instructions: fx.instructions,
                },
            ),
        },
    }
}

/// The fixtures assembled from the first `k` raw inputs, in order.
pub open spec fn assembled_upto(rs: Seq<RawV>, k: int) -> Seq<CorpusFixV>
    decreases k,
{
    if k <= 0 || k > rs.len() {
        Seq::empty()
    } else {
        assembled_upto(rs, k - 1) + match assemble_one(rs[k - 1]) {
            Ok(f) => seq![f],
            Err(_) => Seq::empty(),
        }
    }
}

/// The structural findings of the first `k` raw inputs, in order.
pub open spec fn structural_upto(rs: Seq<RawV>, k: int) -> Seq<FindingV>
    decreases k,
{
    if k <= 0 || k > rs.len() {
        Seq::empty()
    } else {
        structural_upto(rs, k - 1) + match assemble_one(rs[k - 1]) {
            Ok(_) => Seq::empty(),
            Err(f) => seq![f],
        }
    }
}

/// Everything a corpus run reports: structural findings first, then the
/// validator's findings over the assembled fixtures.
pub open spec fn report_spec(rs: Seq<RawV>, ids: Seq<Seq<u8>>) -> Seq<FindingV> {
    structural_upto(rs, rs.len() as int) + validate_spec(assembled_upto(rs, rs.len() as int), ids)
}

/// The outcome of one corpus run.
pub struct Report {
    pub fixtures: Vec<CorpusFixture>,
    pub findings: Vec<Finding>,
}

/// Assembles and validates the whole corpus. The fixtures and the
/// findings are exactly `assembled_upto` and `report_spec` of the inputs:
/// one run is a pure function of corpus text and registry.
pub fn run_corpus(inputs: &Vec<RawFixture>, reg: &Registry) -> (r: Report)
    ensures
        cfs_view(r.fixtures@) == assembled_upto(raws_view(inputs@), inputs@.len() as int),
        findings_view(r.findings@) == report_spec(raws_view(inputs@), reg.ids()),
{
    let ghost rv = raws_view(inputs@);
    let mut fixtures: Vec<CorpusFixture> = Vec::new();
    let mut findings: Vec<Finding> = Vec::new();
    let mut k: usize = 0;
    proof {
        assert(cfs_view(fixtures@) =~~= assembled_upto(rv, 0));
        assert(findings_view(findings@) =~~= structural_upto(rv, 0));
    }
    while k < inputs.len()
        invariant
            k <= inputs@.len(),
            rv == raws_view(inputs@),
            cfs_view(fixtures@) == assembled_upto(rv, k as int),
            findings_view(findings@) == structural_upto(rv, k as int),
        decreases inputs@.len() - k,
    {
        proof {
            assert(rv[k as int] == raw_view(inputs@[k as int]));
        }
        match classify(&inputs[k].path) {
            Err(_) => {
                let finding = Finding::UnrecognizedGroup { path: clone_bytes(&inputs[k].path) };
                let ghost gf = finding;
                let ghost ob = findings@;
                findings.push(finding);
                proof {
                    crate::validate::lemma_findings_view_push(ob, gf);
                }
            },
            Ok(g) => {
                let ghost ggv = GroupV { role: g.role, version: g.version@ };
                match extract_fixture(clone_bytes(&inputs[k].path), &inputs[k].source) {
                    Err(e) => {
                        let finding = match e.kind {
                            ExtractErrorKind::UnattributedMarker => Finding::UnattributedMarker {
                                path: clone_bytes(&inputs[k].path),
                            },
                            ExtractErrorKind::DuplicateTagInInstruction =>
                                Finding::DuplicateTagInInstruction {
                                path: clone_bytes(&inputs[k].path),
                                instruction: e.instruction,
                            },
                        };
                        let ghost gf = finding;
                        let ghost ob = findings@;
                        findings.push(finding);
                        proof {
                            crate::validate::lemma_findings_view_push(ob, gf);
                        }
                    },
                    Ok(rec) => {
                        let fixture = CorpusFixture {
                            path: rec.path,
                            program_id: rec.program_id,
                            role: g.role,
                            version: g.version,
                            instructions: rec.instructions,
                        };
                        let ghost gfx = fixture;
                        let ghost ob = fixtures@;
                        fixtures.push(fixture);
                        proof {
                            crate::validate::lemma_cfs_view_push(ob, gfx);
                            assert(classify_spec(rv[k as int].path) == Some(ggv));
                            assert(assemble_one(rv[k as int]) == Ok::<CorpusFixV, FindingV>(
                                cf_view(gfx),
                            ));
                        }
                    },
                }
            },
        }
        proof {
            assert(cfs_view(fixtures@) =~~= assembled_upto(rv, k + 1));
            assert(findings_view(findings@) =~~= structural_upto(rv, k + 1));
        }
        k = k + 1;
    }
    let ghost structural = findings_view(findings@);
    let mut vfindings = validate(&fixtures, reg);
    let mut v: usize = 0;
    proof {
        assert(findings_view(vfindings@).subrange(0, 0) =~~= Seq::<FindingV>::empty());
        assert(findings_view(findings@) =~~= structural + findings_view(vfindings@).subrange(
            0,
            0,
        ));
    }
    while v < vfindings.len()
        invariant
            v <= vfindings@.len(),
            findings_view(findings@) == structural + findings_view(vfindings@).subrange(
                0,
                v as int,
            ),
            findings_view(vfindings@) == validate_spec(cfs_view(fixtures@), reg.ids()),
        decreases vfindings@.len() - v,
    {
        let ghost ob = findings@;
        let f = copy_finding(&vfindings, v);
        let ghost gf = f;
        findings.push(f);
        proof {
            crate::validate::lemma_findings_view_push(ob, gf);
            assert(finding_view(gf) == finding_view(vfindings@[v as int]));
            assert(findings_view(findings@) =~~= structural + findings_view(
                vfindings@,
            ).subrange(0, v + 1));
        }
        v = v + 1;
    }
    proof {
        assert(findings_view(vfindings@).subrange(0, vfindings@.len() as int) =~~= findings_view(
            vfindings@,
        ));
        assert(findings_view(findings@) =~~= report_spec(rv, reg.ids()));
    }
    Report { fixtures, findings }
}

/// A fresh copy of the finding at index `v`.
fn copy_finding(fs: &Vec<Finding>, v: usize) -> (out: Finding)
    requires
        v < fs@.len(),
    ensures
        finding_view(out) == finding_view(fs@[v as int]),
{
    match &fs[v] {
        Finding::UnrecognizedGroup { path } => Finding::UnrecognizedGroup {
            path: clone_bytes(path),
        },
        Finding::UnattributedMarker { path } => Finding::UnattributedMarker {
            path: clone_bytes(path),
        },
        Finding::DuplicateTagInInstruction { path, instruction } =>
            Finding::DuplicateTagInInstruction {
            path: clone_bytes(path),
            instruction: clone_bytes(instruction),
        },
        Finding::UnknownClass { path, instruction, class_id } => Finding::UnknownClass {
            path: clone_bytes(path),
            instruction: clone_bytes(instruction),
            class_id: clone_bytes(class_id),
        },
        Finding::PartitionRoleViolation { path, class_id } => Finding::PartitionRoleViolation {
            path: clone_bytes(path),
            class_id: match class_id {
                Some(c) => Some(clone_bytes(c)),
                None => None,
            },
        },
        Finding::PartitionLeakage { class_id, in_control, in_seeded } =>
            Finding::PartitionLeakage {
            class_id: clone_bytes(class_id),
            in_control: *in_control,
            in_seeded: *in_seeded,
        },
        Finding::CoverageGap { class_id, side } => Finding::CoverageGap {
            class_id: clone_bytes(class_id),
            side: *side,
        },
        Finding::IdentifierCollision {
            program_id,
            first_path,
            first_role,
            second_path,
            second_role,
        } => Finding::IdentifierCollision {
            program_id: clone_bytes(program_id),
            first_path: clone_bytes(first_path),
            first_role: *first_role,
            second_path: clone_bytes(second_path),
            second_role: *second_role,
        },
    }
}

} // verus!
