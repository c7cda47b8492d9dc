//! The fixture extractor: parses fixture source text into a record of
//! instructions, each with the account parameters its context struct
//! declares and at most one vulnerability tag.
//!
//! The scan is line oriented. A trimmed line starting with `//` is a
//! comment; a comment whose body starts with `HYDRA_VULN:` followed by a
//! `[a-z_]+` identifier is a marker, but only when the identifier is bare:
//! text that continues with a digit, an uppercase letter or an underscore
//! run into other identifier characters is no marker and yields no tag. A
//! trimmed line starting with `pub fn ` opens an instruction; its body
//! extends while the brace depth stays above the depth at its header, and
//! its context type is the identifier inside `Context<...>` on the header
//! line. A trimmed line starting with `pub struct ` opens an accounts
//! struct; inside it, each `pub <name>:` line declares one account. After
//! the scan each instruction's declared account parameters are the fields
//! of the struct its context names, in declaration order. A marker inside
//! an instruction body tags that instruction; a marker outside any body
//! tags the next instruction header. A second tag for one instruction
//! fails the fixture with `DuplicateTagInInstruction`; a marker never
//! followed by an instruction fails it with `UnattributedMarker`. The
//! first `declare_id!("...")` line supplies the program identifier. Brace
//! depth counts raw brace bytes outside comment lines and saturates at
//! zero and at `usize::MAX`.

use vstd::prelude::*;
use crate::bytes::{
    class_end, class_end_exec, clone_bytes, copy_range, find_byte, find_byte_exec, ident_end,
    ident_end_exec, is_ident_char, marker_prefix, prefix_at, prefix_at_exec, trim, trim_exec,
    ws_end, ws_end_exec, lemma_find_byte, lemma_ws_end,
};

verus! {

#[derive(Clone, Copy, PartialEq, Eq, Structural, Debug)]
pub enum ExtractErrorKind {
    UnattributedMarker,
    DuplicateTagInInstruction,
}

/// An extraction failure; `instruction` names the offending instruction
/// for a duplicate tag and is empty otherwise.
#[derive(Debug, PartialEq, Eq)]
pub struct ExtractError {
    pub kind: ExtractErrorKind,
    pub instruction: Vec<u8>,
}

/// One instruction of a fixture: its name, the account parameters its
/// context struct declares, and its vulnerability tag, if any.
#[derive(Debug, PartialEq, Eq)]
pub struct Instruction {
    pub name: Vec<u8>,
    pub accounts: Vec<Vec<u8>>,
    pub tag: Option<Vec<u8>>,
}

/// The extracted record of one fixture.
#[derive(Debug, PartialEq, Eq)]
pub struct FixtureRecord {
    pub path: Vec<u8>,
    pub program_id: Vec<u8>,
    pub instructions: Vec<Instruction>,
}

#[verifier::ext_equal]
pub ghost struct InstV {
    pub name: Seq<u8>,
    pub accounts: Seq<Seq<u8>>,
    pub tag: Option<Seq<u8>>,
}

#[verifier::ext_equal]
pub ghost struct FixtureV {
    pub path: Seq<u8>,
    pub program_id: Seq<u8>,
    pub instructions: Seq<InstV>,
}

#[verifier::ext_equal]
pub ghost struct ErrV {
    pub kind: ExtractErrorKind,
    pub instruction: Seq<u8>,
}

/// An instruction as the scan sees it, before its context struct is
/// resolved.
#[verifier::ext_equal]
pub ghost struct ScanInstV {
    pub name: Seq<u8>,
    pub context: Seq<u8>,
    pub tag: Option<Seq<u8>>,
}

/// An accounts struct: its name and its declared fields, in order.
#[verifier::ext_equal]
pub ghost struct StructV {
    pub name: Seq<u8>,
    pub fields: Seq<Seq<u8>>,
}

pub open spec fn seq_views(v: Seq<Vec<u8>>) -> Seq<Seq<u8>> {
    Seq::new(v.len(), |k: int| v[k]@)
}

pub open spec fn opt_view(v: Option<Vec<u8>>) -> Option<Seq<u8>> {
    match v {
        Some(x) => Some(x@),
        None => None,
    }
}

pub proof fn lemma_seq_views_push(s: Seq<Vec<u8>>, x: Vec<u8>)
    ensures
        seq_views(s.push(x)) == seq_views(s).push(x@),
{
    assert(seq_views(s.push(x)) =~= seq_views(s).push(x@));
}

pub open spec fn inst_view(i: Instruction) -> InstV {
    InstV { name: i.name@, accounts: seq_views(i.accounts@), tag: opt_view(i.tag) }
}

pub open spec fn insts_view(v: Seq<Instruction>) -> Seq<InstV> {
    Seq::new(v.len(), |k: int| inst_view(v[k]))
}

pub proof fn lemma_insts_view_push(s: Seq<Instruction>, x: Instruction)
    ensures
        insts_view(s.push(x)) == insts_view(s).push(inst_view(x)),
{
    assert(insts_view(s.push(x)) =~= insts_view(s).push(inst_view(x)));
}

pub open spec fn record_view(r: FixtureRecord) -> FixtureV {
    FixtureV { path: r.path@, program_id: r.program_id@, instructions: insts_view(r.instructions@) }
}

pub open spec fn err_view(e: ExtractError) -> ErrV {
    ErrV { kind: e.kind, instruction: e.instruction@ }
}

pub open spec fn extract_result_view(r: Result<FixtureRecord, ExtractError>) -> Result<
    FixtureV,
    ErrV,
> {
    match r {
        Ok(f) => Ok(record_view(f)),
        Err(e) => Err(err_view(e)),
    }
}

// ----- the line model -----

pub open spec fn comment_word() -> Seq<u8> {
    seq![47u8, 47u8]
}

/// `pub fn ` as bytes.
pub open spec fn pubfn_word() -> Seq<u8> {
    seq![112u8, 117u8, 98u8, 32u8, 102u8, 110u8, 32u8]
}

/// `pub struct ` as bytes.
pub open spec fn pubstruct_word() -> Seq<u8> {
    seq![112u8, 117u8, 98u8, 32u8, 115u8, 116u8, 114u8, 117u8, 99u8, 116u8, 32u8]
}

/// `pub ` as bytes.
pub open spec fn pub_word() -> Seq<u8> {
    seq![112u8, 117u8, 98u8, 32u8]
}

/// `Context<` as bytes.
pub open spec fn context_word() -> Seq<u8> {
    seq![67u8, 111u8, 110u8, 116u8, 101u8, 120u8, 116u8, 60u8]
}

/// `declare_id!("` as bytes.
pub open spec fn declare_word() -> Seq<u8> {
    seq![100u8, 101u8, 99u8, 108u8, 97u8, 114u8, 101u8, 95u8, 105u8, 100u8, 33u8, 40u8, 34u8]
}

/// First index at or after `i` where `pat` occurs in `s`, or `s.len()`.
pub open spec fn find_seq(s: Seq<u8>, i: int, pat: Seq<u8>) -> int
    decreases s.len() - i,
{
    if i < 0 {
        0
    } else if i >= s.len() {
        s.len() as int
    } else if prefix_at(s, i, pat) {
        i
    } else {
        find_seq(s, i + 1, pat)
    }
}

pub proof fn lemma_find_seq(s: Seq<u8>, i: int, pat: Seq<u8>)
    requires
        0 <= i <= s.len(),
    ensures
        i <= find_seq(s, i, pat) <= s.len(),
        find_seq(s, i, pat) < s.len() ==> prefix_at(s, find_seq(s, i, pat), pat),
    decreases s.len() - i,
{
    if i < s.len() && !prefix_at(s, i, pat) {
        lemma_find_seq(s, i + 1, pat);
    }
}

fn find_seq_exec(s: &Vec<u8>, i: usize, pat: &Vec<u8>) -> (r: usize)
    requires
        i <= s@.len(),
    ensures
        r == find_seq(s@, i as int, pat@),
{
    let mut k: usize = i;
    while k < s.len() && !prefix_at_exec(s, k, pat)
        invariant
            i <= k <= s@.len(),
            find_seq(s@, i as int, pat@) == find_seq(s@, k as int, pat@),
        decreases s@.len() - k,
    {
        proof {
            assert(find_seq(s@, k as int, pat@) == find_seq(s@, k + 1, pat@));
        }
        k = k + 1;
    }
    k
}

pub open spec fn is_comment(t: Seq<u8>) -> bool {
    prefix_at(t, 0, comment_word())
}

/// The class named by a marker comment, if the trimmed line is one. The
/// identifier must be bare: the byte after the `[a-z_]+` run, if any, is
/// no identifier character, so a malformed identifier yields no tag.
pub open spec fn marker_of(t: Seq<u8>) -> Option<Seq<u8>> {
    if !is_comment(t) {
        None
    } else {
        let u = t.skip(2);
        let s0 = ws_end(u, 0);
        if prefix_at(u, s0, marker_prefix()) {
            let cs = s0 + marker_prefix().len();
            let ce = class_end(u, cs);
            if ce > cs && (ce >= u.len() || !is_ident_char(u[ce])) {
                Some(u.subrange(cs, ce))
            } else {
                None
            }
        } else {
            None
        }
    }
}

pub open spec fn is_header(t: Seq<u8>) -> bool {
    prefix_at(t, 0, pubfn_word()) && ident_end(t, 7) > 7
}

pub open spec fn header_name(t: Seq<u8>) -> Seq<u8> {
    t.subrange(7, ident_end(t, 7))
}

/// The context type of a header line: the identifier inside the first
/// `Context<...>`, or empty when the line declares none.
pub open spec fn header_context(t: Seq<u8>) -> Seq<u8> {
    let j = find_seq(t, 0, context_word());
    if j >= t.len() {
        Seq::empty()
    } else {
        t.subrange(j + 8, ident_end(t, j + 8))
    }
}

pub open spec fn is_struct_header(t: Seq<u8>) -> bool {
    prefix_at(t, 0, pubstruct_word()) && ident_end(t, 11) > 11
}

pub open spec fn struct_name(t: Seq<u8>) -> Seq<u8> {
    t.subrange(11, ident_end(t, 11))
}

/// The field a struct-body line declares: `pub <name>:`, or nothing.
pub open spec fn field_of(t: Seq<u8>) -> Option<Seq<u8>> {
    if prefix_at(t, 0, pub_word()) {
        let e = ident_end(t, 4);
        if e > 4 && e < t.len() && t[e] == 58 {
            Some(t.subrange(4, e))
        } else {
            None
        }
    } else {
        None
    }
}

/// The program identifier declared on the line, if it is a
/// `declare_id!("...")` line.
pub open spec fn decl_of(t: Seq<u8>) -> Option<Seq<u8>> {
    if prefix_at(t, 0, declare_word()) {
        Some(t.subrange(13, find_byte(t, 13, 34)))
    } else {
        None
    }
}

/// Brace depth after a line, saturating at 0 and `usize::MAX`.
pub open spec fn depth_after(d: int, t: Seq<u8>) -> int
    decreases t.len(),
{
    if t.len() == 0 {
        d
    } else {
        let d2 = depth_after(d, t.drop_last());
        if t.last() == 123 {
            if d2 < usize::MAX {
                d2 + 1
            } else {
                d2
            }
        } else if t.last() == 125 {
            if d2 > 0 {
                d2 - 1
            } else {
                0
            }
        } else {
            d2
        }
    }
}

pub proof fn lemma_depth_after(d: int, t: Seq<u8>)
    requires
        0 <= d <= usize::MAX,
    ensures
        0 <= depth_after(d, t) <= usize::MAX,
    decreases t.len(),
{
    if t.len() > 0 {
        lemma_depth_after(d, t.drop_last());
    }
}

// ----- the scan -----

#[verifier::ext_equal]
pub ghost struct ScanV {
    pub instrs: Seq<ScanInstV>,
    pub structs: Seq<StructV>,
    pub pending: Seq<Seq<u8>>,
    pub depth: int,
    pub body: Option<int>,
    pub sbase: Option<int>,
    pub sname: Seq<u8>,
    pub sfields: Seq<Seq<u8>>,
    pub program_id: Option<Seq<u8>>,
    pub err: Option<ErrV>,
}

pub open spec fn init_scan() -> ScanV {
    ScanV {
        instrs: Seq::empty(),
        structs: Seq::empty(),
        pending: Seq::empty(),
        depth: 0,
        body: None,
        sbase: None,
        sname: Seq::empty(),
        sfields: Seq::empty(),
        program_id: None,
        err: None,
    }
}

/// Attaches a marker: to the open instruction body, else to the pending
/// list awaiting the next header.
pub open spec fn attach(st: ScanV, c: Seq<u8>) -> ScanV {
    if st.body is Some && st.instrs.len() > 0 {
        let k = st.instrs.len() - 1;
        if st.instrs[k].tag is Some {
            ScanV {
                err: Some(
                    ErrV {
                        kind: ExtractErrorKind::DuplicateTagInInstruction,
                        instruction: st.instrs[k].name,
                    },
                ),
                ..st
            }
        } else {
            ScanV {
                instrs: st.instrs.update(k, ScanInstV { tag: Some(c), ..st.instrs[k] }),
                ..st
            }
        }
    } else {
        ScanV { pending: st.pending.push(c), ..st }
    }
}

/// Applies a line's braces to the depth; closes the open instruction body
/// or accounts struct when the depth returns to its base.
pub open spec fn braces(st: ScanV, t: Seq<u8>) -> ScanV {
    let d = depth_after(st.depth, t);
    let body = match st.body {
        Some(b) => if d <= b {
            None
        } else {
            Some(b)
        },
        None => None,
    };
    let sclosed = match st.sbase {
        Some(b) => d <= b,
        None => false,
    };
    if sclosed {
        ScanV {
            depth: d,
            body,
            structs: st.structs.push(StructV { name: st.sname, fields: st.sfields }),
            sbase: None,
            sname: Seq::empty(),
            sfields: Seq::empty(),
            ..st
        }
    } else {
        ScanV { depth: d, body, ..st }
    }
}

/// Opens a new instruction at a header line, resolving pending markers.
pub open spec fn open_instr(st: ScanV, t: Seq<u8>) -> ScanV {
    let name = header_name(t);
    let tag: Option<Seq<u8>> = if st.pending.len() >= 1 {
        Some(st.pending[0])
    } else {
        None
    };
    let err: Option<ErrV> = if st.pending.len() >= 2 {
        Some(ErrV { kind: ExtractErrorKind::DuplicateTagInInstruction, instruction: name })
    } else {
        st.err
    };
    let st1 = ScanV {
        instrs: st.instrs.push(ScanInstV { name, context: header_context(t), tag }),
        pending: Seq::empty(),
        body: Some(st.depth),
        err,
        ..st
    };
    braces(st1, t)
}

/// Opens a new accounts struct at its header line.
pub open spec fn open_struct(st: ScanV, t: Seq<u8>) -> ScanV {
    let st1 = ScanV {
        sbase: Some(st.depth),
        sname: struct_name(t),
        sfields: Seq::empty(),
        ..st
    };
    braces(st1, t)
}

/// Processes one raw line.
pub open spec fn step(st: ScanV, line: Seq<u8>) -> ScanV {
    if st.err is Some {
        st
    } else {
        let t = trim(line);
        if is_comment(t) {
            match marker_of(t) {
                Some(c) => attach(st, c),
                None => st,
            }
        } else if st.body is None && st.sbase is None && is_header(t) {
            open_instr(st, t)
        } else if st.body is None && st.sbase is None && is_struct_header(t) {
            open_struct(st, t)
        } else if st.sbase is Some {
            let st1 = match field_of(t) {
                Some(f) => ScanV { sfields: st.sfields.push(f), ..st },
                None => st,
            };
            braces(st1, t)
        } else {
            let st1 = if st.program_id is None {
                match decl_of(t) {
                    Some(id) => ScanV { program_id: Some(id), ..st },
                    None => st,
                }
            } else {
                st
            };
            braces(st1, t)
        }
    }
}

/// Runs the scan over the lines of `src` from byte `i` on.
pub open spec fn scan_from(st: ScanV, src: Seq<u8>, i: int) -> ScanV
    decreases src.len() - i,
{
    if i < 0 || i >= src.len() {
        st
    } else {
        let j0 = find_byte(src, i, 10);
        let j = if j0 < i {
            i
        } else if j0 > src.len() {
            src.len() as int
        } else {
            j0
        };
        let st2 = step(st, src.subrange(i, j));
        if j < src.len() {
            scan_from(st2, src, j + 1)
        } else {
            st2
        }
    }
}

/// The declared fields of the first struct named `c`, or none.
pub open spec fn fields_of(structs: Seq<StructV>, c: Seq<u8>) -> Seq<Seq<u8>>
    decreases structs.len(),
{
    if structs.len() == 0 {
        Seq::empty()
    } else if structs[0].name == c {
        structs[0].fields
    } else {
        fields_of(structs.drop_first(), c)
    }
}

/// Links each scanned instruction to the accounts its context struct
/// declares.
pub open spec fn resolve(instrs: Seq<ScanInstV>, structs: Seq<StructV>) -> Seq<InstV> {
    Seq::new(
        instrs.len(),
        |k: int|
            InstV {
                name: instrs[k].name,
                accounts: fields_of(structs, instrs[k].context),
                tag: instrs[k].tag,
            },
    )
}

/// The outcome of extraction on given path and source text.
pub open spec fn extract_spec(path: Seq<u8>, src: Seq<u8>) -> Result<FixtureV, ErrV> {
    let st = scan_from(init_scan(), src, 0);
    match st.err {
        Some(e) => Err(e),
        None => if st.pending.len() > 0 {
            Err(ErrV { kind: ExtractErrorKind::UnattributedMarker, instruction: Seq::empty() })
        } else {
            Ok(
                FixtureV {
                    path,
                    program_id: match st.program_id {
                        Some(p) => p,
                        None => Seq::empty(),
                    },
                    instructions: resolve(st.instrs, st.structs),
                },
            )
        },
    }
}

/// Extraction is a pure function of path and source: identical inputs
/// give the identical record, so re-running it on unchanged text changes
/// nothing.
pub proof fn lemma_extract_deterministic(p1: Seq<u8>, s1: Seq<u8>, p2: Seq<u8>, s2: Seq<u8>)
    requires
        p1 == p2,
        s1 == s2,
    ensures
        extract_spec(p1, s1) == extract_spec(p2, s2),
{
}

// ----- the executable scan -----

struct ScanInst {
    name: Vec<u8>,
    context: Vec<u8>,
    tag: Option<Vec<u8>>,
}

struct StructRec {
    name: Vec<u8>,
    fields: Vec<Vec<u8>>,
}

struct ScanSt {
    instrs: Vec<ScanInst>,
    structs: Vec<StructRec>,
    pending: Vec<Vec<u8>>,
    depth: usize,
    body: Option<usize>,
    sbase: Option<usize>,
    sname: Vec<u8>,
    sfields: Vec<Vec<u8>>,
    program_id: Option<Vec<u8>>,
    err: Option<ExtractError>,
}

spec fn scan_inst_view(i: ScanInst) -> ScanInstV {
    ScanInstV { name: i.name@, context: i.context@, tag: opt_view(i.tag) }
}

spec fn scan_insts_view(v: Seq<ScanInst>) -> Seq<ScanInstV> {
    Seq::new(v.len(), |k: int| scan_inst_view(v[k]))
}

spec fn struct_view(s: StructRec) -> StructV {
    StructV { name: s.name@, fields: seq_views(s.fields@) }
}

spec fn structs_view(v: Seq<StructRec>) -> Seq<StructV> {
    Seq::new(v.len(), |k: int| struct_view(v[k]))
}

spec fn scan_view(s: ScanSt) -> ScanV {
    ScanV {
        instrs: scan_insts_view(s.instrs@),
        structs: structs_view(s.structs@),
        pending: seq_views(s.pending@),
        depth: s.depth as int,
        body: match s.body {
            Some(b) => Some(b as int),
            None => None,
        },
        sbase: match s.sbase {
            Some(b) => Some(b as int),
            None => None,
        },
        sname: s.sname@,
        sfields: seq_views(s.sfields@),
        program_id: opt_view(s.program_id),
        err: match s.err {
            Some(e) => Some(err_view(e)),
            None => None,
        },
    }
}

fn marker_prefix_exec() -> (out: Vec<u8>)
    ensures
        out@ == marker_prefix(),
{
    let mut out: Vec<u8> = Vec::new();
    out.push(72);
    out.push(89);
    out.push(68);
    out.push(82);
    out.push(65);
    out.push(95);
    out.push(86);
    out.push(85);
    out.push(76);
    out.push(78);
    out.push(58);
    proof {
        assert(out@ =~= marker_prefix());
    }
    out
}

fn pubfn_word_exec() -> (out: Vec<u8>)
    ensures
        out@ == pubfn_word(),
{
    let mut out: Vec<u8> = Vec::new();
    out.push(112);
    out.push(117);
    out.push(98);
    out.push(32);
    out.push(102);
    out.push(110);
    out.push(32);
    proof {
        assert(out@ =~= pubfn_word());
    }
    out
}

fn pubstruct_word_exec() -> (out: Vec<u8>)
    ensures
        out@ == pubstruct_word(),
{
    let mut out: Vec<u8> = Vec::new();
    out.push(112);
    out.push(117);
    out.push(98);
    out.push(32);
    out.push(115);
    out.push(116);
    out.push(114);
    out.push(117);
    out.push(99);
    out.push(116);
    out.push(32);
    proof {
        assert(out@ =~= pubstruct_word());
    }
    out
}

fn pub_word_exec() -> (out: Vec<u8>)
    ensures
        out@ == pub_word(),
{
    let mut out: Vec<u8> = Vec::new();
    out.push(112);
    out.push(117);
    out.push(98);
    out.push(32);
    proof {
        assert(out@ =~= pub_word());
    }
    out
}

fn context_word_exec() -> (out: Vec<u8>)
    ensures
        out@ == context_word(),
{
    let mut out: Vec<u8> = Vec::new();
    out.push(67);
    out.push(111);
    out.push(110);
    out.push(116);
    out.push(101);
    out.push(120);
    out.push(116);
    out.push(60);
    proof {
        assert(out@ =~= context_word());
    }
    out
}

fn declare_word_exec() -> (out: Vec<u8>)
    ensures
        out@ == declare_word(),
{
    let mut out: Vec<u8> = Vec::new();
    out.push(100);
    out.push(101);
    out.push(99);
    out.push(108);
    out.push(97);
    out.push(114);
    out.push(101);
    out.push(95);
    out.push(105);
    out.push(100);
    out.push(33);
    out.push(40);
    out.push(34);
    proof {
        assert(out@ =~= declare_word());
    }
    out
}

fn is_comment_exec(t: &Vec<u8>) -> (r: bool)
    ensures
        r == is_comment(t@),
{
    if t.len() >= 2 && t[0] == 47 && t[1] == 47 {
        proof {
            assert(t@.subrange(0, 2) =~= comment_word());
        }
        true
    } else {
        proof {
            if prefix_at(t@, 0, comment_word()) {
                assert(t@.subrange(0, 2)[0] == t@[0]);
                assert(t@.subrange(0, 2)[1] == t@[1]);
            }
        }
        false
    }
}

fn marker_of_exec(t: &Vec<u8>) -> (r: Option<Vec<u8>>)
    ensures
        opt_view(r) == marker_of(t@),
{
    if !is_comment_exec(t) {
        return None;
    }
    let u = copy_range(t, 2, t.len());
    proof {
        assert(u@ =~= t@.skip(2));
        lemma_ws_end(u@, 0);
    }
    let s0 = ws_end_exec(&u, 0);
    let mp = marker_prefix_exec();
    if !prefix_at_exec(&u, s0, &mp) {
        return None;
    }
    let cs = s0 + 11;
    let ce = class_end_exec(&u, cs);
    proof {
        lemma_class_end(u@, cs as int);
    }
    if ce > cs {
        if ce >= u.len() {
            Some(copy_range(&u, cs, ce))
        } else {
            let b = u[ce];
            if (97 <= b && b <= 122) || (65 <= b && b <= 90) || (48 <= b && b <= 57) || b == 95 {
                None
            } else {
                Some(copy_range(&u, cs, ce))
            }
        }
    } else {
        None
    }
}

proof fn lemma_class_end(s: Seq<u8>, i: int)
    requires
        0 <= i <= s.len(),
    ensures
        i <= class_end(s, i) <= s.len(),
    decreases s.len() - i,
{
    if i < s.len() && crate::bytes::is_class_char(s[i]) {
        lemma_class_end(s, i + 1);
    }
}

fn is_header_exec(t: &Vec<u8>) -> (r: bool)
    ensures
        r == is_header(t@),
{
    let pf = pubfn_word_exec();
    if !prefix_at_exec(t, 0, &pf) {
        return false;
    }
    let e = ident_end_exec(t, 7);
    e > 7
}

fn is_struct_header_exec(t: &Vec<u8>) -> (r: bool)
    ensures
        r == is_struct_header(t@),
{
    let pf = pubstruct_word_exec();
    if !prefix_at_exec(t, 0, &pf) {
        return false;
    }
    let e = ident_end_exec(t, 11);
    e > 11
}

fn header_context_exec(t: &Vec<u8>) -> (out: Vec<u8>)
    ensures
        out@ == header_context(t@),
{
    let cw = context_word_exec();
    proof {
        lemma_find_seq(t@, 0, cw@);
    }
    let j = find_seq_exec(t, 0, &cw);
    if j >= t.len() {
        let out: Vec<u8> = Vec::new();
        proof {
            assert(out@ =~= header_context(t@));
        }
        out
    } else {
        proof {
            assert(prefix_at(t@, j as int, context_word()));
        }
        let e = ident_end_checked(t, j + 8);
        copy_range(t, j + 8, e)
    }
}

fn depth_after_exec(d: usize, t: &Vec<u8>) -> (r: usize)
    ensures
        r as int == depth_after(d as int, t@),
{
    let mut cur: usize = d;
    let mut k: usize = 0;
    proof {
        assert(t@.take(0) =~= Seq::<u8>::empty());
    }
    while k < t.len()
        invariant
            k <= t@.len(),
            cur as int == depth_after(d as int, t@.take(k as int)),
        decreases t@.len() - k,
    {
        proof {
            assert(t@.take(k + 1).drop_last() =~= t@.take(k as int));
            assert(t@.take(k + 1).last() == t@[k as int]);
        }
        if t[k] == 123 {
            if cur < usize::MAX {
                cur = cur + 1;
            }
        } else if t[k] == 125 {
            if cur > 0 {
                cur = cur - 1;
            }
        }
        k = k + 1;
    }
    proof {
        assert(t@.take(t@.len() as int) =~= t@);
    }
    cur
}

fn ident_end_checked(t: &Vec<u8>, i: usize) -> (r: usize)
    requires
        i <= t@.len(),
    ensures
        r == ident_end(t@, i as int),
        i <= r <= t@.len(),
{
    let r = ident_end_exec(t, i);
    proof {
        lemma_ident_end(t@, i as int);
    }
    r
}

proof fn lemma_ident_end(s: Seq<u8>, i: int)
    requires
        0 <= i <= s.len(),
    ensures
        i <= ident_end(s, i) <= s.len(),
    decreases s.len() - i,
{
    if i < s.len() && is_ident_char(s[i]) {
        lemma_ident_end(s, i + 1);
    }
}

fn attach_exec(st: ScanSt, c: Vec<u8>) -> (out: ScanSt)
    ensures
        scan_view(out) == attach(scan_view(st), c@),
{
    let mut st = st;
    let ghost stv = scan_view(st);
    if st.body.is_some() && st.instrs.len() > 0 {
        let k = st.instrs.len() - 1;
        let mut last = st.instrs.pop().unwrap();
        if last.tag.is_some() {
            let name = clone_bytes(&last.name);
            st.instrs.push(last);
            st.err = Some(
                ExtractError { kind: ExtractErrorKind::DuplicateTagInInstruction, instruction: name },
            );
            proof {
                assert(scan_insts_view(st.instrs@) =~= stv.instrs);
                assert(scan_view(st) =~~= attach(stv, c@));
            }
            st
        } else {
            last.tag = Some(c);
            st.instrs.push(last);
            proof {
                assert(scan_insts_view(st.instrs@) =~= stv.instrs.update(
                    k as int,
                    ScanInstV { tag: Some(c@), ..stv.instrs[k as int] },
                ));
                assert(scan_view(st) =~~= attach(stv, c@));
            }
            st
        }
    } else {
        st.pending.push(c);
        proof {
            assert(seq_views(st.pending@) =~= stv.pending.push(c@));
            assert(scan_view(st) =~~= attach(stv, c@));
        }
        st
    }
}

fn braces_exec(st: ScanSt, t: &Vec<u8>) -> (out: ScanSt)
    ensures
        scan_view(out) == braces(scan_view(st), t@),
{
    let mut st = st;
    let ghost stv = scan_view(st);
    let d = depth_after_exec(st.depth, t);
    st.depth = d;
    let close = match st.body {
        Some(b) => d <= b,
        None => false,
    };
    if close {
        st.body = None;
    }
    let sclose = match st.sbase {
        Some(b) => d <= b,
        None => false,
    };
    if sclose {
        let ghost obs = structs_view(st.structs@);
        let name = st.sname;
        let fields = st.sfields;
        let ghost gname = name@;
        let ghost gfields = seq_views(fields@);
        st.structs.push(StructRec { name, fields });
        st.sname = Vec::new();
        st.sfields = Vec::new();
        st.sbase = None;
        proof {
            assert(structs_view(st.structs@) =~= obs.push(
                StructV { name: gname, fields: gfields },
            ));
            assert(scan_view(st) =~~= braces(stv, t@));
        }
    } else {
        proof {
            assert(scan_view(st) =~~= braces(stv, t@));
        }
    }
    st
}

fn open_exec(st: ScanSt, t: &Vec<u8>) -> (out: ScanSt)
    requires
        is_header(t@),
    ensures
        scan_view(out) == open_instr(scan_view(st), t@),
{
    let mut st = st;
    let ghost stv = scan_view(st);
    proof {
        assert(t@.len() >= 7);
    }
    let ne = ident_end_checked(t, 7);
    let name = copy_range(t, 7, ne);
    let context = header_context_exec(t);
    let tag: Option<Vec<u8>>;
    if st.pending.len() >= 1 {
        let first = clone_bytes(&st.pending[0]);
        tag = Some(first);
    } else {
        tag = None;
    }
    if st.pending.len() >= 2 {
        let ername = clone_bytes(&name);
        st.err = Some(
            ExtractError {
                kind: ExtractErrorKind::DuplicateTagInInstruction,
                instruction: ername,
            },
        );
    }
    let ghost namev = name@;
    let ghost contextv = context@;
    let ghost tagv = opt_view(tag);
    st.instrs.push(ScanInst { name, context, tag });
    st.pending = Vec::new();
    st.body = Some(st.depth);
    proof {
        assert(scan_insts_view(st.instrs@) =~= stv.instrs.push(
            ScanInstV { name: namev, context: contextv, tag: tagv },
        ));
        assert(seq_views(st.pending@) =~= Seq::<Seq<u8>>::empty());
        assert(namev == header_name(t@));
        assert(contextv == header_context(t@));
        assert(tagv == (if stv.pending.len() >= 1 {
            Some(stv.pending[0])
        } else {
            None::<Seq<u8>>
        }));
    }
    let out = braces_exec(st, t);
    proof {
        assert(scan_view(out) =~~= open_instr(stv, t@));
    }
    out
}

fn open_struct_exec(st: ScanSt, t: &Vec<u8>) -> (out: ScanSt)
    requires
        is_struct_header(t@),
    ensures
        scan_view(out) == open_struct(scan_view(st), t@),
{
    let mut st = st;
    let ghost stv = scan_view(st);
    proof {
        assert(t@.len() >= 11);
    }
    let ne = ident_end_checked(t, 11);
    st.sname = copy_range(t, 11, ne);
    st.sfields = Vec::new();
    st.sbase = Some(st.depth);
    proof {
        assert(seq_views(st.sfields@) =~= Seq::<Seq<u8>>::empty());
    }
    let out = braces_exec(st, t);
    proof {
        assert(scan_view(out) =~~= open_struct(stv, t@));
    }
    out
}

fn step_exec(st: ScanSt, line: &Vec<u8>) -> (out: ScanSt)
    ensures
        scan_view(out) == step(scan_view(st), line@),
{
    let mut st = st;
    let ghost stv = scan_view(st);
    if st.err.is_some() {
        return st;
    }
    let t = trim_exec(line);
    if is_comment_exec(&t) {
        match marker_of_exec(&t) {
            Some(c) => attach_exec(st, c),
            None => st,
        }
    } else if st.body.is_none() && st.sbase.is_none() && is_header_exec(&t) {
        open_exec(st, &t)
    } else if st.body.is_none() && st.sbase.is_none() && is_struct_header_exec(&t) {
        open_struct_exec(st, &t)
    } else if st.sbase.is_some() {
        let pw = pub_word_exec();
        if prefix_at_exec(&t, 0, &pw) {
            let e = ident_end_checked(&t, 4);
            if e > 4 && e < t.len() && t[e] == 58 {
                let f = copy_range(&t, 4, e);
                let ghost gf = f@;
                st.sfields.push(f);
                proof {
                    assert(seq_views(st.sfields@) =~= stv.sfields.push(gf));
                    assert(scan_view(st) =~~= ScanV { sfields: stv.sfields.push(gf), ..stv });
                }
            }
        }
        braces_exec(st, &t)
    } else {
        if st.program_id.is_none() {
            let dw = declare_word_exec();
            if prefix_at_exec(&t, 0, &dw) {
                proof {
                    lemma_find_byte(t@, 13, 34);
                }
                let e = find_byte_exec(&t, 13, 34);
                let id = copy_range(&t, 13, e);
                st.program_id = Some(id);
                proof {
                    assert(scan_view(st) =~~= ScanV { program_id: Some(t@.subrange(13, e as int)), ..stv });
                }
            }
        }
        braces_exec(st, &t)
    }
}

fn scan_rec(st: ScanSt, src: &Vec<u8>, i: usize) -> (out: ScanSt)
    requires
        i <= src@.len(),
    ensures
        scan_view(out) == scan_from(scan_view(st), src@, i as int),
    decreases src@.len() - i,
{
    if i >= src.len() {
        return st;
    }
    proof {
        lemma_find_byte(src@, i as int, 10);
    }
    let j = find_byte_exec(src, i, 10);
    let line = copy_range(src, i, j);
    let st2 = step_exec(st, &line);
    if j < src.len() {
        scan_rec(st2, src, j + 1)
    } else {
        st2
    }
}

fn fields_from(structs: &Vec<StructRec>, c: &Vec<u8>, k: usize) -> (out: Vec<Vec<u8>>)
    requires
        k <= structs@.len(),
    ensures
        seq_views(out@) == fields_of(structs_view(structs@).skip(k as int), c@),
    decreases structs@.len() - k,
{
    if k >= structs.len() {
        let out: Vec<Vec<u8>> = Vec::new();
        proof {
            assert(structs_view(structs@).skip(k as int).len() == 0);
            assert(seq_views(out@) =~= fields_of(structs_view(structs@).skip(k as int), c@));
        }
        return out;
    }
    proof {
        assert(structs_view(structs@).skip(k as int)[0] == struct_view(structs@[k as int]));
        assert(structs_view(structs@).skip(k as int).drop_first() =~= structs_view(
            structs@,
        ).skip(k + 1));
    }
    if crate::bytes::bytes_eq(&structs[k].name, c) {
        let fs = &structs[k].fields;
        let mut out: Vec<Vec<u8>> = Vec::new();
        let mut m: usize = 0;
        proof {
            assert(seq_views(out@) =~= seq_views(fs@).subrange(0, 0));
        }
        while m < fs.len()
            invariant
                m <= fs@.len(),
                fs == &structs@[k as int].fields,
                k < structs@.len(),
                seq_views(out@) == seq_views(fs@).subrange(0, m as int),
            decreases fs@.len() - m,
        {
            let cl = clone_bytes(&fs[m]);
            let ghost gcl = cl;
            let ghost ob = out@;
            out.push(cl);
            proof {
                lemma_seq_views_push(ob, gcl);
                assert(seq_views(out@) =~= seq_views(fs@).subrange(0, m + 1));
            }
            m = m + 1;
        }
        proof {
            assert(seq_views(fs@).subrange(0, fs@.len() as int) =~= seq_views(fs@));
        }
        out
    } else {
        fields_from(structs, c, k + 1)
    }
}

/// Extracts the instruction record of one fixture from its source text.
/// The outcome is exactly `extract_spec(path, source)`: extraction is a
/// pure function of its inputs.
pub fn extract_fixture(path: Vec<u8>, source: &Vec<u8>) -> (r: Result<FixtureRecord, ExtractError>)
    ensures
        extract_result_view(r) == extract_spec(path@, source@),
{
    let st0 = ScanSt {
        instrs: Vec::new(),
        structs: Vec::new(),
        pending: Vec::new(),
        depth: 0,
        body: None,
        sbase: None,
        sname: Vec::new(),
        sfields: Vec::new(),
        program_id: None,
        err: None,
    };
    proof {
        assert(scan_view(st0) =~~= init_scan());
    }
    let st = scan_rec(st0, source, 0);
    match st.err {
        Some(e) => Err(e),
        None => {
            if st.pending.len() > 0 {
                return Err(
                    ExtractError {
                        kind: ExtractErrorKind::UnattributedMarker,
                        instruction: Vec::new(),
                    },
                );
            }
            let program_id = match st.program_id {
                Some(p) => p,
                None => Vec::new(),
            };
            let ghost instrsv = scan_insts_view(st.instrs@);
            let ghost structsv = structs_view(st.structs@);
            let mut instructions: Vec<Instruction> = Vec::new();
            let mut k: usize = 0;
            proof {
                assert(insts_view(instructions@) =~~= resolve(instrsv, structsv).subrange(0, 0));
            }
            while k < st.instrs.len()
                invariant
                    k <= st.instrs@.len(),
                    instrsv == scan_insts_view(st.instrs@),
                    structsv == structs_view(st.structs@),
                    insts_view(instructions@) == resolve(instrsv, structsv).subrange(0, k as int),
                decreases st.instrs@.len() - k,
            {
                proof {
                    assert(structs_view(st.structs@).skip(0) =~= structsv);
                }
                let accounts = fields_from(&st.structs, &st.instrs[k].context, 0);
                let tag: Option<Vec<u8>> = match &st.instrs[k].tag {
                    Some(t) => Some(clone_bytes(t)),
                    None => None,
                };
                let inst = Instruction {
                    name: clone_bytes(&st.instrs[k].name),
                    accounts,
                    tag,
                };
                let ghost ginst = inst;
                let ghost ob = instructions@;
                instructions.push(inst);
                proof {
                    lemma_insts_view_push(ob, ginst);
                    assert(inst_view(ginst) =~~= resolve(instrsv, structsv)[k as int]);
                    assert(insts_view(instructions@) =~~= resolve(instrsv, structsv).subrange(
                        0,
                        k + 1,
                    ));
                }
                k = k + 1;
            }
            proof {
                assert(resolve(instrsv, structsv).subrange(
                    0,
                    resolve(instrsv, structsv).len() as int,
                ) =~= resolve(instrsv, structsv));
            }
            Ok(FixtureRecord { path, program_id, instructions })
        },
    }
}

} // verus!
