use hydra_corpus::corpus::{run_corpus, RawFixture, Report};
use hydra_corpus::manifest::render_manifest;
use hydra_corpus::taxonomy::{Category, Registry};
use hydra_corpus::partition::Role;
use hydra_corpus::validate::{has_blocking, Finding, Side};

fn full_registry() -> Registry {
    let mut reg = Registry::new();
    reg.register(b"missing_signer_check".to_vec(), Category::Authorization).unwrap();
    reg.register(b"cpi_reentrancy".to_vec(), Category::CpiSafety).unwrap();
    reg.register(b"non_canonical_bump".to_vec(), Category::PdaDerivation).unwrap();
    reg.register(b"missing_has_one".to_vec(), Category::Authorization).unwrap();
    reg.register(b"arbitrary_cpi".to_vec(), Category::CpiSafety).unwrap();
    reg.register(b"account_type_confusion".to_vec(), Category::StateConfusion).unwrap();
    reg
}

fn holdout_source() -> Vec<u8> {
    b"use anchor_lang::prelude::*;\n\
\n\
declare_id!(\"HoldoutProg111\");\n\
\n\
#[program]\n\
pub mod holdout_one {\n\
    use super::*;\n\
\n\
    pub fn withdraw(ctx: Context<Withdraw>) -> Result<()> {\n\
        // HYDRA_VULN:missing_signer_check\n\
        let _ = ctx;\n\
        Ok(())\n\
    }\n\
\n\
    pub fn relay(ctx: Context<Relay>) -> Result<()> {\n\
        // HYDRA_VULN:cpi_reentrancy\n\
        let _ = ctx;\n\
        Ok(())\n\
    }\n\
}\n"
        .to_vec()
}

fn seeded_leaky_source() -> Vec<u8> {
    b"declare_id!(\"SeededProg111\");\n\
pub mod template_a {\n\
    pub fn insecure_withdraw(ctx: Context<InsecureWithdraw>, amount: u64) -> Result<()> {\n\
        // HYDRA_VULN:missing_signer_check\n\
        let _ = (ctx, amount);\n\
        Ok(())\n\
    }\n\
}\n"
        .to_vec()
}

fn safe_source(id: &str) -> Vec<u8> {
    format!(
        "declare_id!(\"{}\");\n\
pub mod template_b {{\n\
    pub fn safe_noop(ctx: Context<SafeNoop>) -> Result<()> {{\n\
        let _ = ctx;\n\
        Ok(())\n\
    }}\n\
}}\n",
        id
    )
    .into_bytes()
}

fn raw(path: &str, source: Vec<u8>) -> RawFixture {
    RawFixture { path: path.as_bytes().to_vec(), source }
}

fn count_matching(report: &Report, pred: fn(&Finding) -> bool) -> usize {
    let mut n = 0;
    for f in report.findings.iter() {
        if pred(f) {
            n += 1;
        }
    }
    n
}

#[test]
fn clean_corpus_has_no_blocking_finding() {
    let reg = full_registry();
    let inputs = vec![
        raw("solana_holdout_v1/repo-holdout-1/src/lib.rs", holdout_source()),
        raw("solana_seeded_v1/repo-template-b/src/lib.rs", safe_source("SeededSafe111")),
    ];
    let report = run_corpus(&inputs, &reg);
    for f in report.findings.iter() {
        assert!(matches!(f, Finding::CoverageGap { .. }), "unexpected finding: {:?}", f);
    }
    assert!(!has_blocking(&report.findings));
}

#[test]
fn control_fixture_with_marker_yields_role_violation() {
    // A fixture tagged missing_signer_check inside a control group must
    // yield a PartitionRoleViolation naming the fixture and the class.
    let reg = full_registry();
    let inputs = vec![raw("solana_controls_v1/repo-control-f/src/lib.rs", seeded_leaky_source())];
    let report = run_corpus(&inputs, &reg);
    let expected = Finding::PartitionRoleViolation {
        path: b"solana_controls_v1/repo-control-f/src/lib.rs".to_vec(),
        class_id: Some(b"missing_signer_check".to_vec()),
    };
    assert!(report.findings.contains(&expected), "findings: {:?}", report.findings);
    assert!(has_blocking(&report.findings));
}

#[test]
fn holdout_fixture_without_marker_yields_role_violation() {
    let reg = full_registry();
    let inputs = vec![raw("solana_holdout_v1/repo-holdout-9/src/lib.rs", safe_source("X1"))];
    let report = run_corpus(&inputs, &reg);
    let expected = Finding::PartitionRoleViolation {
        path: b"solana_holdout_v1/repo-holdout-9/src/lib.rs".to_vec(),
        class_id: None,
    };
    assert!(report.findings.contains(&expected), "findings: {:?}", report.findings);
}

#[test]
fn leakage_between_holdout_and_seeded_reported_once() {
    // missing_signer_check present in repo-holdout-1 (holdout) and
    // repo-template-a (seeded) must yield exactly one
    // PartitionLeakage(missing_signer_check).
    let reg = full_registry();
    let inputs = vec![
        raw("solana_holdout_v1/repo-holdout-1/src/lib.rs", holdout_source()),
        raw("solana_seeded_v1/repo-template-a/src/lib.rs", seeded_leaky_source()),
    ];
    let report = run_corpus(&inputs, &reg);
    let n = count_matching(&report, |f| {
        matches!(f, Finding::PartitionLeakage { class_id, .. } if *class_id == b"missing_signer_check".to_vec())
    });
    assert_eq!(n, 1);
    let other = count_matching(&report, |f| {
        matches!(f, Finding::PartitionLeakage { class_id, .. } if *class_id == b"cpi_reentrancy".to_vec())
    });
    assert_eq!(other, 0);
    // the finding names the conflicting partitions: holdout plus seeded
    let expected = Finding::PartitionLeakage {
        class_id: b"missing_signer_check".to_vec(),
        in_control: false,
        in_seeded: true,
    };
    assert!(report.findings.contains(&expected), "findings: {:?}", report.findings);
    assert!(has_blocking(&report.findings));
    // the manifest line carries the conflicting partitions and severity
    let manifest = render_manifest(&reg, &report.fixtures, &report.findings);
    let text = String::from_utf8(manifest).unwrap();
    assert!(
        text.contains(
            "finding=leakage class=missing_signer_check partitions=holdout,seeded severity=error\n",
        ),
        "{}", text
    );
}

#[test]
fn duplicate_tags_on_one_instruction_reported_exactly_once() {
    // Two markers on the same instruction: exactly one
    // DuplicateTagInInstruction, and the fixture is dropped rather than a
    // tag being silently picked.
    let reg = full_registry();
    let source: Vec<u8> = b"pub mod broken {\n\
    // HYDRA_VULN:missing_signer_check\n\
    pub fn withdraw(ctx: Context<Withdraw>) -> Result<()> {\n\
        // HYDRA_VULN:cpi_reentrancy\n\
        Ok(())\n\
    }\n\
}\n"
        .to_vec();
    let inputs = vec![raw("solana_seeded_v1/repo-template-x/src/lib.rs", source)];
    let report = run_corpus(&inputs, &reg);
    let n = count_matching(&report, |f| {
        matches!(f, Finding::DuplicateTagInInstruction { .. })
    });
    assert_eq!(n, 1);
    assert_eq!(report.fixtures.len(), 0);
    let expected = Finding::DuplicateTagInInstruction {
        path: b"solana_seeded_v1/repo-template-x/src/lib.rs".to_vec(),
        instruction: b"withdraw".to_vec(),
    };
    assert!(report.findings.contains(&expected), "findings: {:?}", report.findings);
}

#[test]
fn unknown_class_reported_with_offending_identifier() {
    // A marker referencing arbitrary_cpi when the registry only holds
    // arbitrary_cpi_call yields UnknownClass(arbitrary_cpi).
    let mut reg = Registry::new();
    reg.register(b"arbitrary_cpi_call".to_vec(), Category::CpiSafety).unwrap();
    let source: Vec<u8> = b"pub mod t {\n\
    pub fn forward(ctx: Context<Forward>) -> Result<()> {\n\
        // HYDRA_VULN:arbitrary_cpi\n\
        Ok(())\n\
    }\n\
}\n"
        .to_vec();
    let inputs = vec![raw("solana_seeded_v2/repo-template-d/src/lib.rs", source)];
    let report = run_corpus(&inputs, &reg);
    let expected = Finding::UnknownClass {
        path: b"solana_seeded_v2/repo-template-d/src/lib.rs".to_vec(),
        instruction: b"forward".to_vec(),
        class_id: b"arbitrary_cpi".to_vec(),
    };
    assert!(report.findings.contains(&expected), "findings: {:?}", report.findings);
}

#[test]
fn class_without_vulnerable_exemplar_is_warning_only() {
    // A registered class with zero vulnerable instantiations yields a
    // CoverageGap warning, not a blocking error.
    let mut reg = Registry::new();
    reg.register(b"missing_signer_check".to_vec(), Category::Authorization).unwrap();
    reg.register(b"cpi_reentrancy".to_vec(), Category::CpiSafety).unwrap();
    let inputs = vec![
        raw("solana_holdout_v1/repo-holdout-1/src/lib.rs", {
            b"pub mod h {\n\
    pub fn withdraw(ctx: Context<W>) -> Result<()> {\n\
        // HYDRA_VULN:missing_signer_check\n\
        Ok(())\n\
    }\n\
}\n"
            .to_vec()
        }),
        raw("solana_seeded_v1/repo-template-b/src/lib.rs", safe_source("Safe111")),
    ];
    let report = run_corpus(&inputs, &reg);
    let expected = Finding::CoverageGap {
        class_id: b"cpi_reentrancy".to_vec(),
        side: Side::Vulnerable,
    };
    assert!(report.findings.contains(&expected), "findings: {:?}", report.findings);
    assert!(!has_blocking(&report.findings));
}

#[test]
fn identifier_collision_across_partitions_reported_once() {
    let reg = full_registry();
    let inputs = vec![
        raw("solana_holdout_v1/repo-holdout-1/src/lib.rs", holdout_source()),
        raw("solana_controls_v1/repo-control-f/src/lib.rs", {
            // same declared program identifier as the holdout fixture
            b"declare_id!(\"HoldoutProg111\");\n\
pub mod c {\n\
    pub fn initialize(ctx: Context<I>) -> Result<()> {\n\
        Ok(())\n\
    }\n\
}\n"
            .to_vec()
        }),
    ];
    let report = run_corpus(&inputs, &reg);
    let n = count_matching(&report, |f| {
        matches!(f, Finding::IdentifierCollision { program_id, .. } if *program_id == b"HoldoutProg111".to_vec())
    });
    assert_eq!(n, 1);
    // the finding names the two colliding fixtures and their partitions
    let expected = Finding::IdentifierCollision {
        program_id: b"HoldoutProg111".to_vec(),
        first_path: b"solana_holdout_v1/repo-holdout-1/src/lib.rs".to_vec(),
        first_role: Role::Holdout,
        second_path: b"solana_controls_v1/repo-control-f/src/lib.rs".to_vec(),
        second_role: Role::Control,
    };
    assert!(report.findings.contains(&expected), "findings: {:?}", report.findings);
}

#[test]
fn unrecognized_group_is_a_hard_error() {
    let reg = full_registry();
    let inputs = vec![raw("miscellaneous/repo-x/src/lib.rs", safe_source("Y1"))];
    let report = run_corpus(&inputs, &reg);
    let expected = Finding::UnrecognizedGroup {
        path: b"miscellaneous/repo-x/src/lib.rs".to_vec(),
    };
    assert!(report.findings.contains(&expected));
    assert_eq!(report.fixtures.len(), 0);
    assert!(has_blocking(&report.findings));
}

#[test]
fn unattributed_marker_fails_the_fixture() {
    let reg = full_registry();
    let source: Vec<u8> = b"pub mod empty {\n\
    // HYDRA_VULN:missing_signer_check\n\
}\n"
        .to_vec();
    let inputs = vec![raw("solana_seeded_v1/repo-template-z/src/lib.rs", source)];
    let report = run_corpus(&inputs, &reg);
    let expected = Finding::UnattributedMarker {
        path: b"solana_seeded_v1/repo-template-z/src/lib.rs".to_vec(),
    };
    assert!(report.findings.contains(&expected), "findings: {:?}", report.findings);
    assert_eq!(report.fixtures.len(), 0);
}

#[test]
fn manifest_is_byte_identical_across_runs() {
    // Determinism: identical inputs must render the identical manifest.
    let reg = full_registry();
    let inputs = vec![
        raw("solana_holdout_v1/repo-holdout-1/src/lib.rs", holdout_source()),
        raw("solana_seeded_v1/repo-template-a/src/lib.rs", seeded_leaky_source()),
        raw("solana_seeded_v1/repo-template-b/src/lib.rs", safe_source("Safe111")),
    ];
    let report1 = run_corpus(&inputs, &reg);
    let report2 = run_corpus(&inputs, &reg);
    let m1 = render_manifest(&reg, &report1.fixtures, &report1.findings);
    let m2 = render_manifest(&reg, &report2.fixtures, &report2.findings);
    assert_eq!(m1, m2);
}

#[test]
fn manifest_renders_expected_bytes() {
    let mut reg = Registry::new();
    reg.register(b"missing_signer_check".to_vec(), Category::Authorization).unwrap();
    let inputs = vec![
        raw("solana_holdout_v1/repo-holdout-1/src/lib.rs", {
            b"declare_id!(\"H1\");\n\
pub mod h {\n\
    pub fn withdraw(ctx: Context<W>) -> Result<()> {\n\
        // HYDRA_VULN:missing_signer_check\n\
        Ok(())\n\
    }\n\
}\n"
            .to_vec()
        }),
        raw("solana_seeded_v1/repo-template-b/src/lib.rs", safe_source("S1")),
    ];
    let report = run_corpus(&inputs, &reg);
    let manifest = render_manifest(&reg, &report.fixtures, &report.findings);
    let expected = "class=missing_signer_check partition=control count=0\n\
class=missing_signer_check partition=holdout count=1\n\
class=missing_signer_check partition=seeded count=0\n";
    assert_eq!(String::from_utf8(manifest).unwrap(), expected);
}

#[test]
fn manifest_lists_findings_after_rows() {
    let mut reg = Registry::new();
    reg.register(b"missing_signer_check".to_vec(), Category::Authorization).unwrap();
    let inputs = vec![raw("misc/x.rs", safe_source("Z1"))];
    let report = run_corpus(&inputs, &reg);
    let manifest = render_manifest(&reg, &report.fixtures, &report.findings);
    let text = String::from_utf8(manifest).unwrap();
    assert!(
        text.contains("finding=unrecognized_group path=misc/x.rs severity=error\n"),
        "{}", text
    );
    assert!(
        text.contains(
            "finding=coverage_gap class=missing_signer_check side=vulnerable severity=warning\n",
        ),
        "{}", text
    );
}

#[test]
fn clean_control_fixture_yields_no_finding_for_itself() {
    // A control fixture with zero vulnerable instructions satisfies its
    // role profile.
    let reg = full_registry();
    let inputs = vec![
        raw("solana_controls_v1/repo-control-f/src/lib.rs", safe_source("Ctrl111")),
        raw("solana_holdout_v1/repo-holdout-1/src/lib.rs", holdout_source()),
    ];
    let report = run_corpus(&inputs, &reg);
    let n = count_matching(&report, |f| {
        matches!(f, Finding::PartitionRoleViolation { .. })
    });
    assert_eq!(n, 0);
    assert_eq!(report.fixtures.len(), 2);
}

#[test]
fn extracted_vulnerable_counts_match_partition_profiles() {
    // The extracted vulnerable-instruction count is 0 for the control
    // fixture and 2 for the holdout fixture.
    let reg = full_registry();
    let inputs = vec![
        raw("solana_controls_v1/repo-control-f/src/lib.rs", safe_source("Ctrl111")),
        raw("solana_holdout_v1/repo-holdout-1/src/lib.rs", holdout_source()),
    ];
    let report = run_corpus(&inputs, &reg);
    let control = &report.fixtures[0];
    let holdout = &report.fixtures[1];
    assert_eq!(control.instructions.iter().filter(|i| i.tag.is_some()).count(), 0);
    assert_eq!(holdout.instructions.iter().filter(|i| i.tag.is_some()).count(), 2);
}

#[test]
fn class_without_same_shaped_safe_counterpart_gets_safe_side_gap() {
    // missing_signer_check is instantiated only by an instruction that
    // declares one account; the sole safe instruction declares none, so
    // the class lacks a same-shaped safe counterpart.
    let mut reg = Registry::new();
    reg.register(b"missing_signer_check".to_vec(), Category::Authorization).unwrap();
    let inputs = vec![
        raw("solana_holdout_v1/repo-holdout-1/src/lib.rs", {
            b"declare_id!(\"H2\");\n\
pub mod h {\n\
    pub fn withdraw(ctx: Context<W>, amount: u64) -> Result<()> {\n\
        // HYDRA_VULN:missing_signer_check\n\
        Ok(())\n\
    }\n\
}\n\
\n\
#[derive(Accounts)]\n\
pub struct W<'info> {\n\
    pub authority: AccountInfo<'info>,\n\
}\n"
            .to_vec()
        }),
        raw("solana_seeded_v1/repo-template-b/src/lib.rs", safe_source("S2")),
    ];
    let report = run_corpus(&inputs, &reg);
    let expected = Finding::CoverageGap {
        class_id: b"missing_signer_check".to_vec(),
        side: Side::Safe,
    };
    assert!(report.findings.contains(&expected), "findings: {:?}", report.findings);
    assert!(!has_blocking(&report.findings));
}
