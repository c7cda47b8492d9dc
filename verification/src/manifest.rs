//! The manifest generator: renders per-class, per-partition instruction
//! counts and the findings into one byte-stable output.
//!
//! Rows come first, one per class and partition, ordered lexicographically
//! by class identifier and then by partition name (control, holdout,
//! seeded); the findings follow in report order. The whole output is a
//! pure function of registry, fixtures and findings, so identical inputs
//! render byte-identical manifests. Counts saturate at `u64::MAX`.

use vstd::prelude::*;
use crate::bytes::{append_all, clone_bytes, dec_digits, dec_exec, lex_le, lex_le_exec};
use crate::extract::{seq_views, InstV, Instruction};
use crate::partition::{control_word, holdout_word, seeded_word, Role};
use crate::taxonomy::Registry;
use crate::validate::{
    cfs_view, finding_view, is_blocking, findings_view, CorpusFixture, CorpusFixV, Finding, FindingV, Side,
};

verus! {

// ----- ordering of class identifiers -----

/// `x` inserted before the first element it precedes or equals.
pub open spec fn insert_lex(s: Seq<Seq<u8>>, x: Seq<u8>) -> Seq<Seq<u8>>
    decreases s.len(),
{
    if s.len() == 0 {
        seq![x]
    } else if lex_le(x, s[0]) {
        seq![x] + s
    } else {
        seq![s[0]] + insert_lex(s.drop_first(), x)
    }
}

/// Insertion sort by the lexicographic byte order.
pub open spec fn sort_lex(s: Seq<Seq<u8>>) -> Seq<Seq<u8>>
    decreases s.len(),
{
    if s.len() == 0 {
        Seq::empty()
    } else {
        insert_lex(sort_lex(s.drop_last()), s.last())
    }
}

/// Adjacent elements are in lexicographic order.
pub open spec fn lex_sorted(s: Seq<Seq<u8>>) -> bool {
    forall|k: int| 0 <= k < s.len() - 1 ==> lex_le(#[trigger] s[k], s[k + 1])
}

/// The byte order is total.
pub proof fn lemma_lex_total(a: Seq<u8>, b: Seq<u8>)
    ensures
        lex_le(a, b) || lex_le(b, a),
    decreases a.len(),
{
    if a.len() > 0 && b.len() > 0 && a[0] == b[0] {
        lemma_lex_total(a.drop_first(), b.drop_first());
    }
}

proof fn lemma_insert_lex_shape(s: Seq<Seq<u8>>, x: Seq<u8>)
    ensures
        insert_lex(s, x).len() == s.len() + 1,
        insert_lex(s, x)[0] == x || (s.len() > 0 && insert_lex(s, x)[0] == s[0]),
        insert_lex(s, x).to_multiset() == s.to_multiset().insert(x),
    decreases s.len(),
{
    broadcast use vstd::seq_lib::group_to_multiset_ensures;

    if s.len() == 0 {
        assert(insert_lex(s, x) =~~= s.push(x));
    } else if lex_le(x, s[0]) {
        lemma_multiset_first(x, s);
    } else {
        lemma_insert_lex_shape(s.drop_first(), x);
        let rest = insert_lex(s.drop_first(), x);
        lemma_multiset_first(s[0], rest);
        lemma_multiset_drop_first(s);
        assert(s.drop_first().to_multiset().insert(x).insert(s[0]) =~= s.drop_first(
        ).to_multiset().insert(s[0]).insert(x));
    }
}

/// A sequence's multiset is its head plus the rest's.
proof fn lemma_multiset_drop_first(s: Seq<Seq<u8>>)
    requires
        s.len() > 0,
    ensures
        s.to_multiset() == s.drop_first().to_multiset().insert(s[0]),
{
    assert(s =~~= seq![s[0]] + s.drop_first());
    lemma_multiset_first(s[0], s.drop_first());
}

proof fn lemma_multiset_first(x: Seq<u8>, rest: Seq<Seq<u8>>)
    ensures
        (seq![x] + rest).to_multiset() == rest.to_multiset().insert(x),
    decreases rest.len(),
{
    broadcast use vstd::seq_lib::group_to_multiset_ensures;

    if rest.len() == 0 {
        assert(seq![x] + rest =~~= Seq::<Seq<u8>>::empty().push(x));
    } else {
        let whole = seq![x] + rest;
        assert(whole =~~= (seq![x] + rest.drop_last()).push(rest.last()));
        assert(rest =~~= rest.drop_last().push(rest.last()));
        lemma_multiset_first(x, rest.drop_last());
        assert(rest.drop_last().to_multiset().insert(x).insert(rest.last()) =~= rest.drop_last(
        ).to_multiset().insert(rest.last()).insert(x));
    }
}

/// Insertion keeps a sorted sequence sorted.
proof fn lemma_insert_lex_sorted(s: Seq<Seq<u8>>, x: Seq<u8>)
    requires
        lex_sorted(s),
    ensures
        lex_sorted(insert_lex(s, x)),
    decreases s.len(),
{
    if s.len() == 0 {
    } else if lex_le(x, s[0]) {
        let t = seq![x] + s;
        assert forall|k: int| 0 <= k < t.len() - 1 implies lex_le(#[trigger] t[k], t[k + 1]) by {
            if k > 0 {
                assert(lex_le(s[k - 1], s[k]));
            }
        }
    } else {
        assert(lex_sorted(s.drop_first())) by {
            assert(forall|k: int|
                0 <= k < s.drop_first().len() - 1 ==> lex_le(
                    #[trigger] s.drop_first()[k],
                    s.drop_first()[k + 1],
                ));
        }
        lemma_insert_lex_sorted(s.drop_first(), x);
        lemma_insert_lex_shape(s.drop_first(), x);
        lemma_lex_total(x, s[0]);
        let rest = insert_lex(s.drop_first(), x);
        let t = seq![s[0]] + rest;
        assert forall|k: int| 0 <= k < t.len() - 1 implies lex_le(#[trigger] t[k], t[k + 1]) by {
            if k == 0 {
                if rest[0] == x {
                    assert(lex_le(s[0], x));
                } else {
                    assert(s.drop_first().len() > 0 && rest[0] == s.drop_first()[0]);
                    assert(lex_le(s[0], s[1]));
                }
            } else {
                assert(lex_le(rest[k - 1], rest[k]));
            }
        }
    }
}

/// Law: the manifest's class order is sound: sorting yields the same
/// identifiers as the registry, in lexicographic order.
pub proof fn lemma_sort_lex_sorts(s: Seq<Seq<u8>>)
    ensures
        lex_sorted(sort_lex(s)),
        sort_lex(s).to_multiset() == s.to_multiset(),
        sort_lex(s).len() == s.len(),
    decreases s.len(),
{
    if s.len() == 0 {
        assert(s =~~= Seq::<Seq<u8>>::empty());
        assert(sort_lex(s) =~~= s);
    } else {
        lemma_sort_lex_sorts(s.drop_last());
        lemma_insert_lex_sorted(sort_lex(s.drop_last()), s.last());
        lemma_insert_lex_shape(sort_lex(s.drop_last()), s.last());
        broadcast use vstd::seq_lib::group_to_multiset_ensures;

        assert(s.drop_last().push(s.last()).to_multiset() =~= s.drop_last().to_multiset().insert(
            s.last(),
        ));
        assert(s.drop_last().push(s.last()) =~~= s);
    }
}

proof fn lemma_insert_lex_at(s: Seq<Seq<u8>>, x: Seq<u8>, p: int)
    requires
        0 <= p <= s.len(),
        forall|m: int| 0 <= m < p ==> !lex_le(x, #[trigger] s[m]),
        p < s.len() ==> lex_le(x, s[p]),
    ensures
        insert_lex(s, x) == s.take(p) + seq![x] + s.skip(p),
    decreases p,
{
    if s.len() == 0 {
        assert(insert_lex(s, x) =~~= s.take(p) + seq![x] + s.skip(p));
    } else if p == 0 {
        assert(insert_lex(s, x) =~~= s.take(0) + seq![x] + s.skip(0));
    } else {
        assert(!lex_le(x, s[0]));
        lemma_insert_lex_at(s.drop_first(), x, p - 1);
        assert(insert_lex(s, x) =~~= s.take(p) + seq![x] + s.skip(p));
    }
}

fn find_insert_pos(v: &Vec<Vec<u8>>, x: &Vec<u8>) -> (p: usize)
    ensures
        p <= v@.len(),
        forall|m: int| 0 <= m < p ==> !lex_le(x@, #[trigger] seq_views(v@)[m]),
        p < v@.len() ==> lex_le(x@, seq_views(v@)[p as int]),
{
    let mut p: usize = 0;
    while p < v.len()
        invariant
            p <= v@.len(),
            forall|m: int| 0 <= m < p ==> !lex_le(x@, #[trigger] seq_views(v@)[m]),
        decreases v@.len() - p,
    {
        if lex_le_exec(x, &v[p]) {
            return p;
        }
        p = p + 1;
    }
    p
}

fn insert_sorted(v: &Vec<Vec<u8>>, x: Vec<u8>) -> (out: Vec<Vec<u8>>)
    ensures
        seq_views(out@) == insert_lex(seq_views(v@), x@),
{
    let p = find_insert_pos(v, &x);
    let mut out: Vec<Vec<u8>> = Vec::new();
    let mut m: usize = 0;
    proof {
        assert(seq_views(out@) =~~= seq_views(v@).take(0));
    }
    while m < p
        invariant
            m <= p <= v@.len(),
            seq_views(out@) == seq_views(v@).take(m as int),
        decreases p - m,
    {
        let cl = clone_bytes(&v[m]);
        let ghost gcl = cl;
        let ghost ob = out@;
        out.push(cl);
        proof {
            crate::extract::lemma_seq_views_push(ob, gcl);
            assert(seq_views(out@) =~~= seq_views(v@).take(m + 1));
        }
        m = m + 1;
    }
    let ghost gx = x;
    let ghost ob = out@;
    out.push(x);
    proof {
        crate::extract::lemma_seq_views_push(ob, gx);
    }
    let mut m: usize = p;
    proof {
        assert(seq_views(out@) =~~= seq_views(v@).take(p as int) + seq![gx@] + seq_views(
            v@,
        ).subrange(p as int, p as int));
    }
    while m < v.len()
        invariant
            p <= m <= v@.len(),
            seq_views(out@) == seq_views(v@).take(p as int) + seq![gx@] + seq_views(v@).subrange(
                p as int,
                m as int,
            ),
        decreases v@.len() - m,
    {
        let cl = clone_bytes(&v[m]);
        let ghost gcl = cl;
        let ghost ob = out@;
        out.push(cl);
        proof {
            crate::extract::lemma_seq_views_push(ob, gcl);
            assert(seq_views(out@) =~~= seq_views(v@).take(p as int) + seq![gx@] + seq_views(
                v@,
            ).subrange(p as int, m + 1));
        }
        m = m + 1;
    }
    proof {
        assert(seq_views(v@).subrange(p as int, v@.len() as int) =~~= seq_views(v@).skip(
            p as int,
        ));
        lemma_insert_lex_at(seq_views(v@), gx@, p as int);
        assert(seq_views(out@) =~~= insert_lex(seq_views(v@), gx@));
    }
    out
}

/// The registry identifiers in lexicographic order.
fn sorted_ids(reg: &Registry) -> (out: Vec<Vec<u8>>)
    ensures
        seq_views(out@) == sort_lex(reg.ids()),
{
    let mut out: Vec<Vec<u8>> = Vec::new();
    let mut k: usize = 0;
    proof {
        assert(reg.ids().take(0) =~~= Seq::<Seq<u8>>::empty());
        assert(seq_views(out@) =~~= sort_lex(reg.ids().take(0)));
    }
    while k < reg.classes.len()
        invariant
            k <= reg.classes@.len(),
            seq_views(out@) == sort_lex(reg.ids().take(k as int)),
        decreases reg.classes@.len() - k,
    {
        let cl = clone_bytes(&reg.classes[k].id);
        proof {
            assert(cl@ == reg.ids()[k as int]);
            assert(reg.ids().take(k + 1).drop_last() =~~= reg.ids().take(k as int));
            assert(reg.ids().take(k + 1).last() == reg.ids()[k as int]);
        }
        out = insert_sorted(&out, cl);
        k = k + 1;
    }
    proof {
        assert(reg.ids().take(reg.ids().len() as int) =~~= reg.ids());
    }
    out
}

// ----- counts -----

/// Saturating addition, capped at `u64::MAX`.
pub open spec fn sat_add(a: int, b: int) -> int {
    if a + b > u64::MAX {
        u64::MAX as int
    } else {
        a + b
    }
}

/// How many instructions carry tag `c`, saturating.
pub open spec fn count_in_insts(instrs: Seq<InstV>, c: Seq<u8>) -> int
    decreases instrs.len(),
{
    if instrs.len() == 0 {
        0
    } else {
        let p = count_in_insts(instrs.drop_last(), c);
        if instrs.last().tag == Some(c) {
            sat_add(p, 1)
        } else {
            p
        }
    }
}

proof fn lemma_count_in_insts_bound(instrs: Seq<InstV>, c: Seq<u8>)
    ensures
        0 <= count_in_insts(instrs, c) <= u64::MAX,
    decreases instrs.len(),
{
    if instrs.len() > 0 {
        lemma_count_in_insts_bound(instrs.drop_last(), c);
    }
}

/// How many instructions carry tag `c` inside fixtures of `role`.
pub open spec fn count_class_role(fs: Seq<CorpusFixV>, c: Seq<u8>, role: Role) -> int
    decreases fs.len(),
{
    if fs.len() == 0 {
        0
    } else {
        let p = count_class_role(fs.drop_last(), c, role);
        if fs.last().role == role {
            sat_add(p, count_in_insts(fs.last().instructions, c))
        } else {
            p
        }
    }
}

proof fn lemma_count_class_role_bound(fs: Seq<CorpusFixV>, c: Seq<u8>, role: Role)
    ensures
        0 <= count_class_role(fs, c, role) <= u64::MAX,
    decreases fs.len(),
{
    if fs.len() > 0 {
        lemma_count_class_role_bound(fs.drop_last(), c, role);
        lemma_count_in_insts_bound(fs.last().instructions, c);
    }
}

fn count_in_insts_exec(instrs: &Vec<Instruction>, c: &Vec<u8>) -> (n: u64)
    ensures
        n as int == count_in_insts(crate::extract::insts_view(instrs@), c@),
{
    let ghost iv = crate::extract::insts_view(instrs@);
    let mut n: u64 = 0;
    let mut k: usize = 0;
    proof {
        assert(iv.subrange(0, 0) =~~= Seq::<InstV>::empty());
    }
    while k < instrs.len()
        invariant
            k <= instrs@.len(),
            iv == crate::extract::insts_view(instrs@),
            n as int == count_in_insts(iv.subrange(0, k as int), c@),
        decreases instrs@.len() - k,
    {
        proof {
            assert(iv.subrange(0, k + 1).drop_last() =~~= iv.subrange(0, k as int));
            assert(iv.subrange(0, k + 1).last() == crate::extract::inst_view(
                instrs@[k as int],
            ));
        }
        let mut hit = false;
        match &instrs[k].tag {
            Some(t) => {
                if crate::bytes::bytes_eq(t, c) {
                    hit = true;
                }
            },
            None => {},
        }
        if hit {
            if n < u64::MAX {
                n = n + 1;
            }
        }
        k = k + 1;
    }
    proof {
        assert(iv.subrange(0, instrs@.len() as int) =~~= iv);
    }
    n
}

fn count_class_role_exec(fs: &Vec<CorpusFixture>, c: &Vec<u8>, role: Role) -> (n: u64)
    ensures
        n as int == count_class_role(cfs_view(fs@), c@, role),
{
    let ghost fv = cfs_view(fs@);
    let mut n: u64 = 0;
    let mut k: usize = 0;
    proof {
        assert(fv.subrange(0, 0) =~~= Seq::<CorpusFixV>::empty());
    }
    while k < fs.len()
        invariant
            k <= fs@.len(),
            fv == cfs_view(fs@),
            n as int == count_class_role(fv.subrange(0, k as int), c@, role),
        decreases fs@.len() - k,
    {
        proof {
            assert(fv.subrange(0, k + 1).drop_last() =~~= fv.subrange(0, k as int));
            assert(fv.subrange(0, k + 1).last() == crate::validate::cf_view(fs@[k as int]));
            lemma_count_class_role_bound(fv.subrange(0, k as int), c@, role);
            lemma_count_in_insts_bound(
                crate::extract::insts_view(fs@[k as int].instructions@),
                c@,
            );
        }
        if fs[k].role == role {
            let m = count_in_insts_exec(&fs[k].instructions, c);
            if n > u64::MAX - m {
                n = u64::MAX;
            } else {
                n = n + m;
            }
        }
        k = k + 1;
    }
    proof {
        assert(fv.subrange(0, fs@.len() as int) =~~= fv);
    }
    n
}

// ----- rendering -----

/// The partition's name in the manifest.
pub open spec fn role_name(role: Role) -> Seq<u8> {
    match role {
        Role::Control => control_word(),
        Role::Seeded => seeded_word(),
        Role::Holdout => holdout_word(),
    }
}

fn role_name_exec(role: Role) -> (out: Vec<u8>)
    ensures
        out@ == role_name(role),
{
    let text: Vec<u8>;
    match role {
        Role::Control => {
            let mut t: Vec<u8> = Vec::new();
            t.push(99);
            t.push(111);
            t.push(110);
            t.push(116);
            t.push(114);
            t.push(111);
            t.push(108);
            proof {
                assert(t@ =~= control_word());
            }
            text = t;
        },
        Role::Seeded => {
            let mut t: Vec<u8> = Vec::new();
            t.push(115);
            t.push(101);
            t.push(101);
            t.push(100);
            t.push(101);
            t.push(100);
            proof {
                assert(t@ =~= seeded_word());
            }
            text = t;
        },
        Role::Holdout => {
            let mut t: Vec<u8> = Vec::new();
            t.push(104);
            t.push(111);
            t.push(108);
            t.push(100);
            t.push(111);
            t.push(117);
            t.push(116);
            proof {
                assert(t@ =~= holdout_word());
            }
            text = t;
        },
    }
    text
}

/// One `class=... partition=... count=...` row.
pub open spec fn count_line(c: Seq<u8>, role: Role, fs: Seq<CorpusFixV>) -> Seq<u8> {
    t_class() + c + t_partition() + role_name(role) + t_count() + dec_digits(
        count_class_role(fs, c, role) as nat,
    ) + seq![10u8]
}

/// The three rows of one class, partitions in lexicographic order.
pub open spec fn class_rows(c: Seq<u8>, fs: Seq<CorpusFixV>) -> Seq<u8> {
    count_line(c, Role::Control, fs) + count_line(c, Role::Holdout, fs) + count_line(
        c,
        Role::Seeded,
        fs,
    )
}

pub open spec fn rows_upto(sorted: Seq<Seq<u8>>, fs: Seq<CorpusFixV>, k: int) -> Seq<u8>
    decreases k,
{
    if k <= 0 || k > sorted.len() {
        Seq::empty()
    } else {
        rows_upto(sorted, fs, k - 1) + class_rows(sorted[k - 1], fs)
    }
}

/// The severity suffix of a finding line: coverage gaps are warnings,
/// everything else is an error.
pub open spec fn severity_of(f: FindingV) -> Seq<u8> {
    if is_blocking(f) {
        t_sev_error()
    } else {
        t_sev_warning()
    }
}

/// The body of one findings line, before its severity.
pub open spec fn finding_body(f: FindingV) -> Seq<u8> {
    match f {
        FindingV::UnrecognizedGroup { path } => t_f_unrecognized() + path,
        FindingV::UnattributedMarker { path } => t_f_unattributed() + path,
        FindingV::DuplicateTagInInstruction { path, instruction } => t_f_duplicate() + path
            + t_instruction() + instruction,
        FindingV::UnknownClass { path, instruction, class_id } => t_f_unknown() + path
            + t_instruction() + instruction + t_classfield() + class_id,
        FindingV::PartitionRoleViolation { path, class_id } => t_f_roleviol() + path
            + t_classfield() + (match class_id {
            Some(c) => c,
            None => t_none(),
        }),
        FindingV::PartitionLeakage { class_id, in_control, in_seeded } => t_f_leakage() + class_id
            + t_partitions() + (if in_control {
            t_with_control()
        } else {
            Seq::empty()
        }) + (if in_seeded {
            t_with_seeded()
        } else {
            Seq::empty()
        }),
        FindingV::CoverageGap { class_id, side } => t_f_covgap() + class_id + (match side {
            Side::Vulnerable => t_side_vulnerable(),
            Side::Safe => t_side_safe(),
        }),
        FindingV::IdentifierCollision {
            program_id,
            first_path,
            first_role,
            second_path,
            second_role,
        } => t_f_collision() + program_id + t_first() + first_path + t_role() + role_name(
            first_role,
        ) + t_second() + second_path + t_role() + role_name(second_role),
    }
}

/// One findings line: its body, its severity, a newline.
pub open spec fn finding_line(f: FindingV) -> Seq<u8> {
    finding_body(f) + severity_of(f) + seq![10u8]
}

pub open spec fn finding_lines_upto(fv: Seq<FindingV>, k: int) -> Seq<u8>
    decreases k,
{
    if k <= 0 || k > fv.len() {
        Seq::empty()
    } else {
        finding_lines_upto(fv, k - 1) + finding_line(fv[k - 1])
    }
}

/// The whole manifest: count rows for every registered class, then the
/// findings, each as one line.
pub open spec fn manifest_spec(
    ids: Seq<Seq<u8>>,
    fs: Seq<CorpusFixV>,
    findings: Seq<FindingV>,
) -> Seq<u8> {
    rows_upto(sort_lex(ids), fs, sort_lex(ids).len() as int) + finding_lines_upto(
        findings,
        findings.len() as int,
    )
}

/// Manifest rendering is deterministic: byte-identical inputs give a
/// byte-identical manifest.
pub proof fn lemma_manifest_deterministic(
    ids1: Seq<Seq<u8>>,
    fs1: Seq<CorpusFixV>,
    g1: Seq<FindingV>,
    ids2: Seq<Seq<u8>>,
    fs2: Seq<CorpusFixV>,
    g2: Seq<FindingV>,
)
    requires
        ids1 == ids2,
        fs1 == fs2,
        g1 == g2,
    ensures
        manifest_spec(ids1, fs1, g1) == manifest_spec(ids2, fs2, g2),
{
}

fn append_count_line(out: &mut Vec<u8>, c: &Vec<u8>, role: Role, fixtures: &Vec<CorpusFixture>)
    ensures
        final(out)@ == old(out)@ + count_line(c@, role, cfs_view(fixtures@)),
{
    let t1 = t_class_exec();
    append_all(out, &t1);
    append_all(out, c);
    let t2 = t_partition_exec();
    append_all(out, &t2);
    let rn = role_name_exec(role);
    append_all(out, &rn);
    let t3 = t_count_exec();
    append_all(out, &t3);
    let n = count_class_role_exec(fixtures, c, role);
    let d = dec_exec(n);
    append_all(out, &d);
    out.push(10);
    proof {
        lemma_count_class_role_bound(cfs_view(fixtures@), c@, role);
        assert(out@ =~= old(out)@ + count_line(c@, role, cfs_view(fixtures@)));
    }
}

#[verifier::rlimit(80)]
fn append_finding_line(out: &mut Vec<u8>, f: &Finding)
    ensures
        final(out)@ == old(out)@ + finding_line(finding_view(*f)),
{
    match f {
        Finding::UnrecognizedGroup { path } => {
            let t = t_f_unrecognized_exec();
            append_all(out, &t);
            append_all(out, path);
        },
        Finding::UnattributedMarker { path } => {
            let t = t_f_unattributed_exec();
            append_all(out, &t);
            append_all(out, path);
        },
        Finding::DuplicateTagInInstruction { path, instruction } => {
            let t = t_f_duplicate_exec();
            append_all(out, &t);
            append_all(out, path);
            let t2 = t_instruction_exec();
            append_all(out, &t2);
            append_all(out, instruction);
        },
        Finding::UnknownClass { path, instruction, class_id } => {
            let t = t_f_unknown_exec();
            append_all(out, &t);
            append_all(out, path);
            let t2 = t_instruction_exec();
            append_all(out, &t2);
            append_all(out, instruction);
            let t3 = t_classfield_exec();
            append_all(out, &t3);
            append_all(out, class_id);
        },
        Finding::PartitionRoleViolation { path, class_id } => {
            let t = t_f_roleviol_exec();
            append_all(out, &t);
            append_all(out, path);
            let t2 = t_classfield_exec();
            append_all(out, &t2);
            match class_id {
                Some(c) => append_all(out, c),
                None => {
                    let t3 = t_none_exec();
                    append_all(out, &t3);
                },
            }
        },
        Finding::PartitionLeakage { class_id, in_control, in_seeded } => {
            let t = t_f_leakage_exec();
            append_all(out, &t);
            append_all(out, class_id);
            let t2 = t_partitions_exec();
            append_all(out, &t2);
            if *in_control {
                let t3 = t_with_control_exec();
                append_all(out, &t3);
            }
            if *in_seeded {
                let t4 = t_with_seeded_exec();
                append_all(out, &t4);
            }
        },
        Finding::CoverageGap { class_id, side } => {
            let t = t_f_covgap_exec();
            append_all(out, &t);
            append_all(out, class_id);
            match side {
                Side::Vulnerable => {
                    let t2 = t_side_vulnerable_exec();
                    append_all(out, &t2);
                },
                Side::Safe => {
                    let t2 = t_side_safe_exec();
                    append_all(out, &t2);
                },
            }
        },
        Finding::IdentifierCollision {
            program_id,
            first_path,
            first_role,
            second_path,
            second_role,
        } => {
            let t = t_f_collision_exec();
            append_all(out, &t);
            append_all(out, program_id);
            let t2 = t_first_exec();
            append_all(out, &t2);
            append_all(out, first_path);
            let t3 = t_role_exec();
            append_all(out, &t3);
            let r1 = role_name_exec(*first_role);
            append_all(out, &r1);
            let t4 = t_second_exec();
            append_all(out, &t4);
            append_all(out, second_path);
            let t5 = t_role_exec();
            append_all(out, &t5);
            let r2 = role_name_exec(*second_role);
            append_all(out, &r2);
        },
    }
    let blocking = match f {
        Finding::CoverageGap { .. } => false,
        _ => true,
    };
    if blocking {
        let ts = t_sev_error_exec();
        append_all(out, &ts);
    } else {
        let ts = t_sev_warning_exec();
        append_all(out, &ts);
    }
    out.push(10);
    proof {
        assert(out@ =~= old(out)@ + finding_line(finding_view(*f)));
    }
}

/// Renders the manifest. The output is exactly `manifest_spec` of the
/// inputs.
pub fn render_manifest(
    reg: &Registry,
    fixtures: &Vec<CorpusFixture>,
    findings: &Vec<Finding>,
) -> (out: Vec<u8>)
    ensures
        out@ == manifest_spec(reg.ids(), cfs_view(fixtures@), findings_view(findings@)),
{
    let ghost fsv = cfs_view(fixtures@);
    let sorted = sorted_ids(reg);
    let ghost sv = seq_views(sorted@);
    let mut out: Vec<u8> = Vec::new();
    let mut k: usize = 0;
    proof {
        assert(out@ =~= rows_upto(sv, fsv, 0));
    }
    while k < sorted.len()
        invariant
            k <= sorted@.len(),
            sv == seq_views(sorted@),
            fsv == cfs_view(fixtures@),
            out@ == rows_upto(sv, fsv, k as int),
        decreases sorted@.len() - k,
    {
        proof {
            assert(sv[k as int] == sorted@[k as int]@);
        }
        append_count_line(&mut out, &sorted[k], Role::Control, fixtures);
        append_count_line(&mut out, &sorted[k], Role::Holdout, fixtures);
        append_count_line(&mut out, &sorted[k], Role::Seeded, fixtures);
        proof {
            assert(out@ =~= rows_upto(sv, fsv, k + 1));
        }
        k = k + 1;
    }
    let ghost gv = findings_view(findings@);
    let mut v: usize = 0;
    proof {
        assert(out@ =~= rows_upto(sv, fsv, sv.len() as int) + finding_lines_upto(gv, 0));
    }
    while v < findings.len()
        invariant
            v <= findings@.len(),
            sv == seq_views(sorted@),
            fsv == cfs_view(fixtures@),
            gv == findings_view(findings@),
            out@ == rows_upto(sv, fsv, sv.len() as int) + finding_lines_upto(gv, v as int),
        decreases findings@.len() - v,
    {
        append_finding_line(&mut out, &findings[v]);
        proof {
            assert(gv[v as int] == finding_view(findings@[v as int]));
            assert(out@ =~= rows_upto(sv, fsv, sv.len() as int) + finding_lines_upto(gv, v + 1));
        }
        v = v + 1;
    }
    out
}

// ----- the literal tokens of the output -----

/// ` partitions=holdout` as bytes.
pub open spec fn t_partitions() -> Seq<u8> {
    seq![32u8, 112u8, 97u8, 114u8, 116u8, 105u8, 116u8, 105u8, 111u8, 110u8, 115u8, 61u8, 104u8, 111u8, 108u8, 100u8, 111u8, 117u8, 116u8]
}

fn t_partitions_exec() -> (out: Vec<u8>)
    ensures
        out@ == t_partitions(),
{
    let mut out: Vec<u8> = Vec::new();
    out.push(32);
    out.push(112);
    out.push(97);
    out.push(114);
    out.push(116);
    out.push(105);
    out.push(116);
    out.push(105);
    out.push(111);
    out.push(110);
    out.push(115);
    out.push(61);
    out.push(104);
    out.push(111);
    out.push(108);
    out.push(100);
    out.push(111);
    out.push(117);
    out.push(116);
    proof {
        assert(out@ =~= t_partitions());
    }
    out
}

/// `,control` as bytes.
pub open spec fn t_with_control() -> Seq<u8> {
    seq![44u8, 99u8, 111u8, 110u8, 116u8, 114u8, 111u8, 108u8]
}

fn t_with_control_exec() -> (out: Vec<u8>)
    ensures
        out@ == t_with_control(),
{
    let mut out: Vec<u8> = Vec::new();
    out.push(44);
    out.push(99);
    out.push(111);
    out.push(110);
    out.push(116);
    out.push(114);
    out.push(111);
    out.push(108);
    proof {
        assert(out@ =~= t_with_control());
    }
    out
}

/// `,seeded` as bytes.
pub open spec fn t_with_seeded() -> Seq<u8> {
    seq![44u8, 115u8, 101u8, 101u8, 100u8, 101u8, 100u8]
}

fn t_with_seeded_exec() -> (out: Vec<u8>)
    ensures
        out@ == t_with_seeded(),
{
    let mut out: Vec<u8> = Vec::new();
    out.push(44);
    out.push(115);
    out.push(101);
    out.push(101);
    out.push(100);
    out.push(101);
    out.push(100);
    proof {
        assert(out@ =~= t_with_seeded());
    }
    out
}

/// ` first=` as bytes.
pub open spec fn t_first() -> Seq<u8> {
    seq![32u8, 102u8, 105u8, 114u8, 115u8, 116u8, 61u8]
}

fn t_first_exec() -> (out: Vec<u8>)
    ensures
        out@ == t_first(),
{
    let mut out: Vec<u8> = Vec::new();
    out.push(32);
    out.push(102);
    out.push(105);
    out.push(114);
    out.push(115);
    out.push(116);
    out.push(61);
    proof {
        assert(out@ =~= t_first());
    }
    out
}

/// ` second=` as bytes.
pub open spec fn t_second() -> Seq<u8> {
    seq![32u8, 115u8, 101u8, 99u8, 111u8, 110u8, 100u8, 61u8]
}

fn t_second_exec() -> (out: Vec<u8>)
    ensures
        out@ == t_second(),
{
    let mut out: Vec<u8> = Vec::new();
    out.push(32);
    out.push(115);
    out.push(101);
    out.push(99);
    out.push(111);
    out.push(110);
    out.push(100);
    out.push(61);
    proof {
        assert(out@ =~= t_second());
    }
    out
}

/// ` role=` as bytes.
pub open spec fn t_role() -> Seq<u8> {
    seq![32u8, 114u8, 111u8, 108u8, 101u8, 61u8]
}

fn t_role_exec() -> (out: Vec<u8>)
    ensures
        out@ == t_role(),
{
    let mut out: Vec<u8> = Vec::new();
    out.push(32);
    out.push(114);
    out.push(111);
    out.push(108);
    out.push(101);
    out.push(61);
    proof {
        assert(out@ =~= t_role());
    }
    out
}

/// ` severity=error` as bytes.
pub open spec fn t_sev_error() -> Seq<u8> {
    seq![32u8, 115u8, 101u8, 118u8, 101u8, 114u8, 105u8, 116u8, 121u8, 61u8, 101u8, 114u8, 114u8, 111u8, 114u8]
}

fn t_sev_error_exec() -> (out: Vec<u8>)
    ensures
        out@ == t_sev_error(),
{
    let mut out: Vec<u8> = Vec::new();
    out.push(32);
    out.push(115);
    out.push(101);
    out.push(118);
    out.push(101);
    out.push(114);
    out.push(105);
    out.push(116);
    out.push(121);
    out.push(61);
    out.push(101);
    out.push(114);
    out.push(114);
    out.push(111);
    out.push(114);
    proof {
        assert(out@ =~= t_sev_error());
    }
    out
}

/// ` severity=warning` as bytes.
pub open spec fn t_sev_warning() -> Seq<u8> {
    seq![32u8, 115u8, 101u8, 118u8, 101u8, 114u8, 105u8, 116u8, 121u8, 61u8, 119u8, 97u8, 114u8, 110u8, 105u8, 110u8, 103u8]
}

fn t_sev_warning_exec() -> (out: Vec<u8>)
    ensures
        out@ == t_sev_warning(),
{
    let mut out: Vec<u8> = Vec::new();
    out.push(32);
    out.push(115);
    out.push(101);
    out.push(118);
    out.push(101);
    out.push(114);
    out.push(105);
    out.push(116);
    out.push(121);
    out.push(61);
    out.push(119);
    out.push(97);
    out.push(114);
    out.push(110);
    out.push(105);
    out.push(110);
    out.push(103);
    proof {
        assert(out@ =~= t_sev_warning());
    }
    out
}

/// `class=` as bytes.
pub open spec fn t_class() -> Seq<u8> {
    seq![99u8, 108u8, 97u8, 115u8, 115u8, 61u8]
}

fn t_class_exec() -> (out: Vec<u8>)
    ensures
        out@ == t_class(),
{
    let mut out: Vec<u8> = Vec::new();
    out.push(99);
    out.push(108);
    out.push(97);
    out.push(115);
    out.push(115);
    out.push(61);
    proof {
        assert(out@ =~= t_class());
    }
    out
}

/// ` partition=` as bytes.
pub open spec fn t_partition() -> Seq<u8> {
    seq![32u8, 112u8, 97u8, 114u8, 116u8, 105u8, 116u8, 105u8, 111u8, 110u8, 61u8]
}

fn t_partition_exec() -> (out: Vec<u8>)
    ensures
        out@ == t_partition(),
{
    let mut out: Vec<u8> = Vec::new();
    out.push(32);
    out.push(112);
    out.push(97);
    out.push(114);
    out.push(116);
    out.push(105);
    out.push(116);
    out.push(105);
    out.push(111);
    out.push(110);
    out.push(61);
    proof {
        assert(out@ =~= t_partition());
    }
    out
}

/// ` count=` as bytes.
pub open spec fn t_count() -> Seq<u8> {
    seq![32u8, 99u8, 111u8, 117u8, 110u8, 116u8, 61u8]
}

fn t_count_exec() -> (out: Vec<u8>)
    ensures
        out@ == t_count(),
{
    let mut out: Vec<u8> = Vec::new();
    out.push(32);
    out.push(99);
    out.push(111);
    out.push(117);
    out.push(110);
    out.push(116);
    out.push(61);
    proof {
        assert(out@ =~= t_count());
    }
    out
}

/// `finding=unrecognized_group path=` as bytes.
pub open spec fn t_f_unrecognized() -> Seq<u8> {
    seq![102u8, 105u8, 110u8, 100u8, 105u8, 110u8, 103u8, 61u8, 117u8, 110u8, 114u8, 101u8, 99u8, 111u8, 103u8, 110u8, 105u8, 122u8, 101u8, 100u8, 95u8, 103u8, 114u8, 111u8, 117u8, 112u8, 32u8, 112u8, 97u8, 116u8, 104u8, 61u8]
}

fn t_f_unrecognized_exec() -> (out: Vec<u8>)
    ensures
        out@ == t_f_unrecognized(),
{
    let mut out: Vec<u8> = Vec::new();
    out.push(102);
    out.push(105);
    out.push(110);
    out.push(100);
    out.push(105);
    out.push(110);
    out.push(103);
    out.push(61);
    out.push(117);
    out.push(110);
    out.push(114);
    out.push(101);
    out.push(99);
    out.push(111);
    out.push(103);
    out.push(110);
    out.push(105);
    out.push(122);
    out.push(101);
    out.push(100);
    out.push(95);
    out.push(103);
    out.push(114);
    out.push(111);
    out.push(117);
    out.push(112);
    out.push(32);
    out.push(112);
    out.push(97);
    out.push(116);
    out.push(104);
    out.push(61);
    proof {
        assert(out@ =~= t_f_unrecognized());
    }
    out
}

/// `finding=unattributed_marker path=` as bytes.
pub open spec fn t_f_unattributed() -> Seq<u8> {
    seq![102u8, 105u8, 110u8, 100u8, 105u8, 110u8, 103u8, 61u8, 117u8, 110u8, 97u8, 116u8, 116u8, 114u8, 105u8, 98u8, 117u8, 116u8, 101u8, 100u8, 95u8, 109u8, 97u8, 114u8, 107u8, 101u8, 114u8, 32u8, 112u8, 97u8, 116u8, 104u8, 61u8]
}

fn t_f_unattributed_exec() -> (out: Vec<u8>)
    ensures
        out@ == t_f_unattributed(),
{
    let mut out: Vec<u8> = Vec::new();
    out.push(102);
    out.push(105);
    out.push(110);
    out.push(100);
    out.push(105);
    out.push(110);
    out.push(103);
    out.push(61);
    out.push(117);
    out.push(110);
    out.push(97);
    out.push(116);
    out.push(116);
    out.push(114);
    out.push(105);
    out.push(98);
    out.push(117);
    out.push(116);
    out.push(101);
    out.push(100);
    out.push(95);
    out.push(109);
    out.push(97);
    out.push(114);
    out.push(107);
    out.push(101);
    out.push(114);
    out.push(32);
    out.push(112);
    out.push(97);
    out.push(116);
    out.push(104);
    out.push(61);
    proof {
        assert(out@ =~= t_f_unattributed());
    }
    out
}

/// `finding=duplicate_tag path=` as bytes.
pub open spec fn t_f_duplicate() -> Seq<u8> {
    seq![102u8, 105u8, 110u8, 100u8, 105u8, 110u8, 103u8, 61u8, 100u8, 117u8, 112u8, 108u8, 105u8, 99u8, 97u8, 116u8, 101u8, 95u8, 116u8, 97u8, 103u8, 32u8, 112u8, 97u8, 116u8, 104u8, 61u8]
}

fn t_f_duplicate_exec() -> (out: Vec<u8>)
    ensures
        out@ == t_f_duplicate(),
{
    let mut out: Vec<u8> = Vec::new();
    out.push(102);
    out.push(105);
    out.push(110);
    out.push(100);
    out.push(105);
    out.push(110);
    out.push(103);
    out.push(61);
    out.push(100);
    out.push(117);
    out.push(112);
    out.push(108);
    out.push(105);
    out.push(99);
    out.push(97);
    out.push(116);
    out.push(101);
    out.push(95);
    out.push(116);
    out.push(97);
    out.push(103);
    out.push(32);
    out.push(112);
    out.push(97);
    out.push(116);
    out.push(104);
    out.push(61);
    proof {
        assert(out@ =~= t_f_duplicate());
    }
    out
}

/// ` instruction=` as bytes.
pub open spec fn t_instruction() -> Seq<u8> {
    seq![32u8, 105u8, 110u8, 115u8, 116u8, 114u8, 117u8, 99u8, 116u8, 105u8, 111u8, 110u8, 61u8]
}

fn t_instruction_exec() -> (out: Vec<u8>)
    ensures
        out@ == t_instruction(),
{
    let mut out: Vec<u8> = Vec::new();
    out.push(32);
    out.push(105);
    out.push(110);
    out.push(115);
    out.push(116);
    out.push(114);
    out.push(117);
    out.push(99);
    out.push(116);
    out.push(105);
    out.push(111);
    out.push(110);
    out.push(61);
    proof {
        assert(out@ =~= t_instruction());
    }
    out
}

/// `finding=unknown_class path=` as bytes.
pub open spec fn t_f_unknown() -> Seq<u8> {
    seq![102u8, 105u8, 110u8, 100u8, 105u8, 110u8, 103u8, 61u8, 117u8, 110u8, 107u8, 110u8, 111u8, 119u8, 110u8, 95u8, 99u8, 108u8, 97u8, 115u8, 115u8, 32u8, 112u8, 97u8, 116u8, 104u8, 61u8]
}

fn t_f_unknown_exec() -> (out: Vec<u8>)
    ensures
        out@ == t_f_unknown(),
{
    let mut out: Vec<u8> = Vec::new();
    out.push(102);
    out.push(105);
    out.push(110);
    out.push(100);
    out.push(105);
    out.push(110);
    out.push(103);
    out.push(61);
    out.push(117);
    out.push(110);
    out.push(107);
    out.push(110);
    out.push(111);
    out.push(119);
    out.push(110);
    out.push(95);
    out.push(99);
    out.push(108);
    out.push(97);
    out.push(115);
    out.push(115);
    out.push(32);
    out.push(112);
    out.push(97);
    out.push(116);
    out.push(104);
    out.push(61);
    proof {
        assert(out@ =~= t_f_unknown());
    }
    out
}

/// ` class=` as bytes.
pub open spec fn t_classfield() -> Seq<u8> {
    seq![32u8, 99u8, 108u8, 97u8, 115u8, 115u8, 61u8]
}

fn t_classfield_exec() -> (out: Vec<u8>)
    ensures
        out@ == t_classfield(),
{
    let mut out: Vec<u8> = Vec::new();
    out.push(32);
    out.push(99);
    out.push(108);
    out.push(97);
    out.push(115);
    out.push(115);
    out.push(61);
    proof {
        assert(out@ =~= t_classfield());
    }
    out
}

/// `finding=role_violation path=` as bytes.
pub open spec fn t_f_roleviol() -> Seq<u8> {
    seq![102u8, 105u8, 110u8, 100u8, 105u8, 110u8, 103u8, 61u8, 114u8, 111u8, 108u8, 101u8, 95u8, 118u8, 105u8, 111u8, 108u8, 97u8, 116u8, 105u8, 111u8, 110u8, 32u8, 112u8, 97u8, 116u8, 104u8, 61u8]
}

fn t_f_roleviol_exec() -> (out: Vec<u8>)
    ensures
        out@ == t_f_roleviol(),
{
    let mut out: Vec<u8> = Vec::new();
    out.push(102);
    out.push(105);
    out.push(110);
    out.push(100);
    out.push(105);
    out.push(110);
    out.push(103);
    out.push(61);
    out.push(114);
    out.push(111);
    out.push(108);
    out.push(101);
    out.push(95);
    out.push(118);
    out.push(105);
    out.push(111);
    out.push(108);
    out.push(97);
    out.push(116);
    out.push(105);
    out.push(111);
    out.push(110);
    out.push(32);
    out.push(112);
    out.push(97);
    out.push(116);
    out.push(104);
    out.push(61);
    proof {
        assert(out@ =~= t_f_roleviol());
    }
    out
}

/// `none` as bytes.
pub open spec fn t_none() -> Seq<u8> {
    seq![110u8, 111u8, 110u8, 101u8]
}

fn t_none_exec() -> (out: Vec<u8>)
    ensures
        out@ == t_none(),
{
    let mut out: Vec<u8> = Vec::new();
    out.push(110);
    out.push(111);
    out.push(110);
    out.push(101);
    proof {
        assert(out@ =~= t_none());
    }
    out
}

/// `finding=leakage class=` as bytes.
pub open spec fn t_f_leakage() -> Seq<u8> {
    seq![102u8, 105u8, 110u8, 100u8, 105u8, 110u8, 103u8, 61u8, 108u8, 101u8, 97u8, 107u8, 97u8, 103u8, 101u8, 32u8, 99u8, 108u8, 97u8, 115u8, 115u8, 61u8]
}

fn t_f_leakage_exec() -> (out: Vec<u8>)
    ensures
        out@ == t_f_leakage(),
{
    let mut out: Vec<u8> = Vec::new();
    out.push(102);
    out.push(105);
    out.push(110);
    out.push(100);
    out.push(105);
    out.push(110);
    out.push(103);
    out.push(61);
    out.push(108);
    out.push(101);
    out.push(97);
    out.push(107);
    out.push(97);
    out.push(103);
    out.push(101);
    out.push(32);
    out.push(99);
    out.push(108);
    out.push(97);
    out.push(115);
    out.push(115);
    out.push(61);
    proof {
        assert(out@ =~= t_f_leakage());
    }
    out
}

/// `finding=coverage_gap class=` as bytes.
pub open spec fn t_f_covgap() -> Seq<u8> {
    seq![102u8, 105u8, 110u8, 100u8, 105u8, 110u8, 103u8, 61u8, 99u8, 111u8, 118u8, 101u8, 114u8, 97u8, 103u8, 101u8, 95u8, 103u8, 97u8, 112u8, 32u8, 99u8, 108u8, 97u8, 115u8, 115u8, 61u8]
}

fn t_f_covgap_exec() -> (out: Vec<u8>)
    ensures
        out@ == t_f_covgap(),
{
    let mut out: Vec<u8> = Vec::new();
    out.push(102);
    out.push(105);
    out.push(110);
    out.push(100);
    out.push(105);
    out.push(110);
    out.push(103);
    out.push(61);
    out.push(99);
    out.push(111);
    out.push(118);
    out.push(101);
    out.push(114);
    out.push(97);
    out.push(103);
    out.push(101);
    out.push(95);
    out.push(103);
    out.push(97);
    out.push(112);
    out.push(32);
    out.push(99);
    out.push(108);
    out.push(97);
    out.push(115);
    out.push(115);
    out.push(61);
    proof {
        assert(out@ =~= t_f_covgap());
    }
    out
}

/// ` side=vulnerable` as bytes.
pub open spec fn t_side_vulnerable() -> Seq<u8> {
    seq![32u8, 115u8, 105u8, 100u8, 101u8, 61u8, 118u8, 117u8, 108u8, 110u8, 101u8, 114u8, 97u8, 98u8, 108u8, 101u8]
}

fn t_side_vulnerable_exec() -> (out: Vec<u8>)
    ensures
        out@ == t_side_vulnerable(),
{
    let mut out: Vec<u8> = Vec::new();
    out.push(32);
    out.push(115);
    out.push(105);
    out.push(100);
    out.push(101);
    out.push(61);
    out.push(118);
    out.push(117);
    out.push(108);
    out.push(110);
    out.push(101);
    out.push(114);
    out.push(97);
    out.push(98);
    out.push(108);
    out.push(101);
    proof {
        assert(out@ =~= t_side_vulnerable());
    }
    out
}

/// ` side=safe` as bytes.
pub open spec fn t_side_safe() -> Seq<u8> {
    seq![32u8, 115u8, 105u8, 100u8, 101u8, 61u8, 115u8, 97u8, 102u8, 101u8]
}

fn t_side_safe_exec() -> (out: Vec<u8>)
    ensures
        out@ == t_side_safe(),
{
    let mut out: Vec<u8> = Vec::new();
    out.push(32);
    out.push(115);
    out.push(105);
    out.push(100);
    out.push(101);
    out.push(61);
    out.push(115);
    out.push(97);
    out.push(102);
    out.push(101);
    proof {
        assert(out@ =~= t_side_safe());
    }
    out
}

/// `finding=identifier_collision program=` as bytes.
pub open spec fn t_f_collision() -> Seq<u8> {
    seq![102u8, 105u8, 110u8, 100u8, 105u8, 110u8, 103u8, 61u8, 105u8, 100u8, 101u8, 110u8, 116u8, 105u8, 102u8, 105u8, 101u8, 114u8, 95u8, 99u8, 111u8, 108u8, 108u8, 105u8, 115u8, 105u8, 111u8, 110u8, 32u8, 112u8, 114u8, 111u8, 103u8, 114u8, 97u8, 109u8, 61u8]
}

fn t_f_collision_exec() -> (out: Vec<u8>)
    ensures
        out@ == t_f_collision(),
{
    let mut out: Vec<u8> = Vec::new();
    out.push(102);
    out.push(105);
    out.push(110);
    out.push(100);
    out.push(105);
    out.push(110);
    out.push(103);
    out.push(61);
    out.push(105);
    out.push(100);
    out.push(101);
    out.push(110);
    out.push(116);
    out.push(105);
    out.push(102);
    out.push(105);
    out.push(101);
    out.push(114);
    out.push(95);
    out.push(99);
    out.push(111);
    out.push(108);
    out.push(108);
    out.push(105);
    out.push(115);
    out.push(105);
    out.push(111);
    out.push(110);
    out.push(32);
    out.push(112);
    out.push(114);
    out.push(111);
    out.push(103);
    out.push(114);
    out.push(97);
    out.push(109);
    out.push(61);
    proof {
        assert(out@ =~= t_f_collision());
    }
    out
}

} // verus!
