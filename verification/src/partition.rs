//! The partition model: a fixture's corpus role (control / seeded /
//! holdout) and version, derived purely from the grouping segment of its
//! path.

use vstd::prelude::*;
use crate::bytes::{
    contains_seq, contains_seq_exec, copy_range, find_byte, find_byte_exec, is_sep,
    lemma_find_byte, prefix_at,
};

verus! {

/// A fixture's corpus role.
#[derive(Clone, Copy, PartialEq, Eq, Structural, Debug)]
pub enum Role {
    Control,
    Seeded,
    Holdout,
}

#[derive(Clone, Copy, PartialEq, Eq, Structural, Debug)]
pub enum PartitionError {
    UnrecognizedGroup,
}

/// The partition a fixture belongs to: its role plus the version suffix of
/// its grouping segment, captured verbatim.
#[derive(Debug, PartialEq, Eq)]
pub struct PartitionGroup {
    pub role: Role,
    pub version: Vec<u8>,
}

/// Ghost image of a partition group.
pub ghost struct GroupV {
    pub role: Role,
    pub version: Seq<u8>,
}

pub open spec fn control_word() -> Seq<u8> {
    seq![99u8, 111u8, 110u8, 116u8, 114u8, 111u8, 108u8]
}

pub open spec fn seeded_word() -> Seq<u8> {
    seq![115u8, 101u8, 101u8, 100u8, 101u8, 100u8]
}

pub open spec fn holdout_word() -> Seq<u8> {
    seq![104u8, 111u8, 108u8, 100u8, 111u8, 117u8, 116u8]
}

/// The grouping segment: the path up to its first `/`.
pub open spec fn segment_of(path: Seq<u8>) -> Seq<u8> {
    path.subrange(0, find_byte(path, 0, 47))
}

/// The role named by a grouping segment, by substring match, checked in a
/// fixed order.
pub open spec fn role_of(seg: Seq<u8>) -> Option<Role> {
    if contains_seq(seg, control_word()) {
        Some(Role::Control)
    } else if contains_seq(seg, seeded_word()) {
        Some(Role::Seeded)
    } else if contains_seq(seg, holdout_word()) {
        Some(Role::Holdout)
    } else {
        None
    }
}

/// Start of the version suffix: one past the last separator of the
/// segment, or 0 when it has none.
pub open spec fn version_start(seg: Seq<u8>) -> int
    decreases seg.len(),
{
    if seg.len() == 0 {
        0
    } else if is_sep(seg.last()) {
        seg.len() as int
    } else {
        version_start(seg.drop_last())
    }
}

pub proof fn lemma_version_start(seg: Seq<u8>)
    ensures
        0 <= version_start(seg) <= seg.len(),
    decreases seg.len(),
{
    if seg.len() > 0 && !is_sep(seg.last()) {
        lemma_version_start(seg.drop_last());
    }
}

/// The version suffix of a grouping segment, verbatim.
pub open spec fn version_of(seg: Seq<u8>) -> Seq<u8> {
    seg.subrange(version_start(seg), seg.len() as int)
}

/// What classification yields on a path, or `None` when no role word
/// occurs in the grouping segment.
pub open spec fn classify_spec(path: Seq<u8>) -> Option<GroupV> {
    match role_of(segment_of(path)) {
        Some(role) => Some(GroupV { role, version: version_of(segment_of(path)) }),
        None => None,
    }
}

fn control_word_exec() -> (out: Vec<u8>)
    ensures
        out@ == control_word(),
{
    let mut out: Vec<u8> = Vec::new();
    out.push(99);
    out.push(111);
    out.push(110);
    out.push(116);
    out.push(114);
    out.push(111);
    out.push(108);
    proof {
        assert(out@ =~= control_word());
    }
    out
}

fn seeded_word_exec() -> (out: Vec<u8>)
    ensures
        out@ == seeded_word(),
{
    let mut out: Vec<u8> = Vec::new();
    out.push(115);
    out.push(101);
    out.push(101);
    out.push(100);
    out.push(101);
    out.push(100);
    proof {
        assert(out@ =~= seeded_word());
    }
    out
}

fn holdout_word_exec() -> (out: Vec<u8>)
    ensures
        out@ == holdout_word(),
{
    let mut out: Vec<u8> = Vec::new();
    out.push(104);
    out.push(111);
    out.push(108);
    out.push(100);
    out.push(111);
    out.push(117);
    out.push(116);
    proof {
        assert(out@ =~= holdout_word());
    }
    out
}

fn version_start_exec(seg: &Vec<u8>) -> (r: usize)
    ensures
        r == version_start(seg@),
{
    let mut h: usize = seg.len();
    proof {
        assert(seg@.take(seg@.len() as int) =~= seg@);
    }
    while h > 0 && !(seg[h - 1] == 95 || seg[h - 1] == 45)
        invariant
            h <= seg@.len(),
            version_start(seg@) == version_start(seg@.take(h as int)),
        decreases h,
    {
        proof {
            assert(seg@.take(h as int).last() == seg@[h - 1]);
            assert(seg@.take(h as int).drop_last() =~= seg@.take(h - 1));
        }
        h = h - 1;
    }
    proof {
        if h > 0 {
            assert(seg@.take(h as int).last() == seg@[h - 1]);
        }
    }
    h
}

/// Classifies a fixture path, relative to the corpus root, into its
/// partition group. Fails when the grouping segment names no known role.
pub fn classify(path: &Vec<u8>) -> (r: Result<PartitionGroup, PartitionError>)
    ensures
        match r {
            Ok(g) => classify_spec(path@) == Some(GroupV { role: g.role, version: g.version@ }),
            Err(e) => classify_spec(path@) is None && e == PartitionError::UnrecognizedGroup,
        },
{
    proof {
        lemma_find_byte(path@, 0, 47);
    }
    let end = find_byte_exec(path, 0, 47);
    let seg = copy_range(path, 0, end);
    let role: Role;
    if contains_seq_exec(&seg, &control_word_exec()) {
        role = Role::Control;
    } else if contains_seq_exec(&seg, &seeded_word_exec()) {
        role = Role::Seeded;
    } else if contains_seq_exec(&seg, &holdout_word_exec()) {
        role = Role::Holdout;
    } else {
        return Err(PartitionError::UnrecognizedGroup);
    }
    proof {
        lemma_version_start(seg@);
    }
    let vs = version_start_exec(&seg);
    let version = copy_range(&seg, vs, seg.len());
    Ok(PartitionGroup { role, version })
}

} // verus!
