use hydra_corpus::bytes::dec_exec;
use hydra_corpus::extract::{extract_fixture, ExtractErrorKind};
use hydra_corpus::partition::{classify, PartitionError, Role};
use hydra_corpus::taxonomy::{Category, Registry, RegistryError};

#[test]
fn registry_rejects_duplicates_and_resolves_lookups() {
    let mut reg = Registry::new();
    assert!(reg.register(b"missing_signer_check".to_vec(), Category::Authorization).is_ok());
    assert!(reg.register(b"seed_collision".to_vec(), Category::PdaDerivation).is_ok());
    assert_eq!(
        reg.register(b"missing_signer_check".to_vec(), Category::CpiSafety),
        Err(RegistryError::DuplicateClass)
    );
    assert_eq!(reg.len(), 2);
    assert_eq!(reg.lookup(&b"seed_collision".to_vec()), Ok(Category::PdaDerivation));
    assert_eq!(
        reg.lookup(&b"arbitrary_cpi".to_vec()),
        Err(RegistryError::UnknownClass)
    );
    assert!(reg.contains(&b"missing_signer_check".to_vec()));
    assert!(!reg.contains(&b"arbitrary_cpi".to_vec()));
}

#[test]
fn classify_reads_role_and_version_from_grouping_segment() {
    let g = classify(&b"solana_controls_v1/repo-control-f/src/lib.rs".to_vec()).unwrap();
    assert_eq!(g.role, Role::Control);
    assert_eq!(g.version, b"v1".to_vec());

    let g = classify(&b"solana_seeded_v2/repo-template-c/src/lib.rs".to_vec()).unwrap();
    assert_eq!(g.role, Role::Seeded);
    assert_eq!(g.version, b"v2".to_vec());

    let g = classify(&b"solana_holdout_v1/repo-holdout-2/src/lib.rs".to_vec()).unwrap();
    assert_eq!(g.role, Role::Holdout);
    assert_eq!(g.version, b"v1".to_vec());
}

#[test]
fn classify_handles_hyphenated_groups_and_rejects_unknown_ones() {
    let g = classify(&b"repo-holdout-1/src/lib.rs".to_vec()).unwrap();
    assert_eq!(g.role, Role::Holdout);
    assert_eq!(g.version, b"1".to_vec());

    assert_eq!(
        classify(&b"golden_repos/solana_controls_v1/x.rs".to_vec()),
        Err(PartitionError::UnrecognizedGroup)
    );
    assert_eq!(
        classify(&b"miscellaneous/x.rs".to_vec()),
        Err(PartitionError::UnrecognizedGroup)
    );
}

fn holdout_text() -> Vec<u8> {
    b"use anchor_lang::prelude::*;\n\
\n\
declare_id!(\"11111111111111111111111111111111\");\n\
\n\
#[program]\n\
pub mod holdout_one {\n\
    use super::*;\n\
\n\
    pub fn withdraw(ctx: Context<Withdraw>) -> Result<()> {\n\
        // HYDRA_VULN:missing_signer_check\n\
        let _ = ctx.accounts.authority.key();\n\
        Ok(())\n\
    }\n\
\n\
    pub fn relay(ctx: Context<Relay>) -> Result<()> {\n\
        // HYDRA_VULN:cpi_reentrancy\n\
        let _ = ctx;\n\
        Ok(())\n\
    }\n\
}\n\
\n\
#[derive(Accounts)]\n\
pub struct Withdraw<'info> {\n\
    pub authority: AccountInfo<'info>,\n\
}\n\
\n\
#[derive(Accounts)]\n\
pub struct Relay {}\n"
    .to_vec()
}

#[test]
fn extractor_reads_instructions_tags_and_program_id() {
    let rec = extract_fixture(b"p".to_vec(), &holdout_text()).unwrap();
    assert_eq!(rec.path, b"p".to_vec());
    assert_eq!(rec.program_id, b"11111111111111111111111111111111".to_vec());
    assert_eq!(rec.instructions.len(), 2);
    assert_eq!(rec.instructions[0].name, b"withdraw".to_vec());
    assert_eq!(rec.instructions[0].tag, Some(b"missing_signer_check".to_vec()));
    assert_eq!(rec.instructions[0].accounts, vec![b"authority".to_vec()]);
    assert_eq!(rec.instructions[1].name, b"relay".to_vec());
    assert_eq!(rec.instructions[1].tag, Some(b"cpi_reentrancy".to_vec()));
    assert_eq!(rec.instructions[1].accounts, Vec::<Vec<u8>>::new());
}

#[test]
fn extractor_attributes_marker_above_header_to_that_instruction() {
    let source: Vec<u8> = b"pub mod template_a {\n\
    pub fn insecure_withdraw(ctx: Context<W>, amount: u64) -> Result<()> {\n\
        // HYDRA_VULN:missing_signer_check\n\
        Ok(())\n\
    }\n\
\n\
    // HYDRA_VULN:arbitrary_cpi\n\
    pub fn insecure_cpi(ctx: Context<C>, target_program: Pubkey) -> Result<()> {\n\
        Ok(())\n\
    }\n\
}\n"
        .to_vec();
    let rec = extract_fixture(b"p".to_vec(), &source).unwrap();
    assert_eq!(rec.instructions.len(), 2);
    assert_eq!(rec.instructions[0].tag, Some(b"missing_signer_check".to_vec()));
    assert_eq!(rec.instructions[1].name, b"insecure_cpi".to_vec());
    assert_eq!(rec.instructions[1].tag, Some(b"arbitrary_cpi".to_vec()));
}

#[test]
fn extractor_leaves_untagged_instructions_safe() {
    let source: Vec<u8> = b"pub mod b {\n\
    pub fn safe_noop(_ctx: Context<SafeNoop>, amount: u64) -> Result<()> {\n\
        if amount > 0 {\n\
            msg!(\"amount={}\", amount);\n\
        }\n\
        Ok(())\n\
    }\n\
}\n"
        .to_vec();
    let rec = extract_fixture(b"p".to_vec(), &source).unwrap();
    assert_eq!(rec.instructions.len(), 1);
    assert_eq!(rec.instructions[0].name, b"safe_noop".to_vec());
    assert_eq!(rec.instructions[0].tag, None);
}

#[test]
fn extractor_fails_on_duplicate_tag_without_picking_one() {
    let source: Vec<u8> = b"pub mod x {\n\
    pub fn insecure_pda(ctx: Context<P>, bump: u8) -> Result<()> {\n\
        // HYDRA_VULN:non_canonical_bump\n\
        // HYDRA_VULN:seed_collision\n\
        Ok(())\n\
    }\n\
}\n"
        .to_vec();
    let err = extract_fixture(b"p".to_vec(), &source).unwrap_err();
    assert_eq!(err.kind, ExtractErrorKind::DuplicateTagInInstruction);
    assert_eq!(err.instruction, b"insecure_pda".to_vec());
}

#[test]
fn extractor_fails_on_marker_with_no_instruction() {
    let source: Vec<u8> = b"// HYDRA_VULN:missing_signer_check\n".to_vec();
    let err = extract_fixture(b"p".to_vec(), &source).unwrap_err();
    assert_eq!(err.kind, ExtractErrorKind::UnattributedMarker);
}

#[test]
fn extraction_is_idempotent_on_unchanged_source() {
    // Re-running extraction on the same source yields an identical record.
    let first = extract_fixture(b"p".to_vec(), &holdout_text()).unwrap();
    let second = extract_fixture(b"p".to_vec(), &holdout_text()).unwrap();
    assert_eq!(first, second);
}

#[test]
fn decimal_rendering_is_exact() {
    assert_eq!(dec_exec(0), b"0".to_vec());
    assert_eq!(dec_exec(7), b"7".to_vec());
    assert_eq!(dec_exec(1234), b"1234".to_vec());
    assert_eq!(dec_exec(u64::MAX), b"18446744073709551615".to_vec());
}

#[test]
fn marker_grammar_tolerates_comment_whitespace_only() {
    // Standard comment trimming: spaces between the comment token and the
    // marker prefix are fine; the identifier is the maximal [a-z_]+ run.
    let source: Vec<u8> = b"pub mod x {\n\
    pub fn f(ctx: Context<F>) -> Result<()> {\n\
        //    HYDRA_VULN:seed_collision   \n\
        Ok(())\n\
    }\n\
}\n"
        .to_vec();
    let rec = extract_fixture(b"p".to_vec(), &source).unwrap();
    assert_eq!(rec.instructions[0].tag, Some(b"seed_collision".to_vec()));

    // An ordinary comment is no marker.
    let source2: Vec<u8> = b"pub mod x {\n\
    pub fn f(ctx: Context<F>) -> Result<()> {\n\
        // checks the signer before use\n\
        Ok(())\n\
    }\n\
}\n"
        .to_vec();
    let rec2 = extract_fixture(b"p".to_vec(), &source2).unwrap();
    assert_eq!(rec2.instructions[0].tag, None);
}

#[test]
fn accounts_come_from_the_context_struct() {
    // The declared account parameters of an instruction are the fields of
    // the struct its Context names, in declaration order.
    let source: Vec<u8> = b"pub mod template_c {\n\
    pub fn update_config(ctx: Context<UpdateConfig>) -> Result<()> {\n\
        // HYDRA_VULN:missing_has_one\n\
        Ok(())\n\
    }\n\
\n\
    pub fn relay_cpi(ctx: Context<RelayCpi>, seeds: Vec<u8>) -> Result<()> {\n\
        Ok(())\n\
    }\n\
}\n\
\n\
#[derive(Accounts)]\n\
pub struct UpdateConfig<'info> {\n\
    pub admin: AccountInfo<'info>,\n\
    pub config: AccountInfo<'info>,\n\
}\n\
\n\
#[derive(Accounts)]\n\
pub struct RelayCpi {}\n"
        .to_vec();
    let rec = extract_fixture(b"p".to_vec(), &source).unwrap();
    assert_eq!(rec.instructions.len(), 2);
    assert_eq!(
        rec.instructions[0].accounts,
        vec![b"admin".to_vec(), b"config".to_vec()]
    );
    assert_eq!(rec.instructions[1].accounts, Vec::<Vec<u8>>::new());
}

#[test]
fn malformed_marker_identifiers_yield_no_tag() {
    // A marker identifier must match [a-z_]+ and be bare: text continuing
    // with a digit or an uppercase letter is no marker and invents no tag.
    let source: Vec<u8> = b"pub mod x {\n\
    pub fn f(ctx: Context<F>) -> Result<()> {\n\
        // HYDRA_VULN:attacker1seed\n\
        Ok(())\n\
    }\n\
\n\
    pub fn g(ctx: Context<G>) -> Result<()> {\n\
        // HYDRA_VULN:Attacker\n\
        Ok(())\n\
    }\n\
}\n"
        .to_vec();
    let rec = extract_fixture(b"p".to_vec(), &source).unwrap();
    assert_eq!(rec.instructions[0].tag, None);
    assert_eq!(rec.instructions[1].tag, None);
}

#[test]
fn corpus_registry_holds_the_closed_taxonomy() {
    let reg = hydra_corpus::taxonomy::corpus_registry();
    assert_eq!(reg.len(), 9);
    assert!(reg.contains(&b"missing_signer_check".to_vec()));
    assert!(reg.contains(&b"account_type_confusion".to_vec()));
    assert!(!reg.contains(&b"arbitrary".to_vec()));
    assert_eq!(
        reg.lookup(&b"cpi_reentrancy".to_vec()),
        Ok(Category::CpiSafety)
    );
}
