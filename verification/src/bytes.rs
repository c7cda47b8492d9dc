//! Byte-sequence primitives shared by the extractor, the partition model
//! and the manifest renderer: character classes, scanning, trimming,
//! literal tokens, lexicographic order and decimal rendering.

use vstd::prelude::*;

verus! {

pub open spec fn is_ws(b: u8) -> bool {
    b == 32 || b == 9 || b == 13
}

/// Characters allowed in a marker class identifier: `[a-z_]`.
pub open spec fn is_class_char(b: u8) -> bool {
    (97 <= b && b <= 122) || b == 95
}

/// Characters of an identifier as the extractor reads one.
pub open spec fn is_ident_char(b: u8) -> bool {
    (97 <= b && b <= 122) || (65 <= b && b <= 90) || (48 <= b && b <= 57) || b == 95
}

/// Separators inside a grouping segment: underscore and hyphen.
pub open spec fn is_sep(b: u8) -> bool {
    b == 95 || b == 45
}

/// The literal marker prefix `HYDRA_VULN:`.
pub open spec fn marker_prefix() -> Seq<u8> {
    seq![72u8, 89u8, 68u8, 82u8, 65u8, 95u8, 86u8, 85u8, 76u8, 78u8, 58u8]
}

/// First index at or after `i` holding byte `b`, or `s.len()`.
pub open spec fn find_byte(s: Seq<u8>, i: int, b: u8) -> int
    decreases s.len() - i,
{
    if i < 0 {
        0
    } else if i >= s.len() {
        s.len() as int
    } else if s[i] == b {
        i
    } else {
        find_byte(s, i + 1, b)
    }
}

pub proof fn lemma_find_byte(s: Seq<u8>, i: int, b: u8)
    requires
        0 <= i <= s.len(),
    ensures
        i <= find_byte(s, i, b) <= s.len(),
        find_byte(s, i, b) < s.len() ==> s[find_byte(s, i, b)] == b,
        forall|k: int| i <= k < find_byte(s, i, b) ==> s[k] != b,
    decreases s.len() - i,
{
    if i < s.len() && s[i] != b {
        lemma_find_byte(s, i + 1, b);
    }
}

/// Exec counterpart of `find_byte`.
pub fn find_byte_exec(s: &Vec<u8>, i: usize, b: u8) -> (r: usize)
    requires
        i <= s@.len(),
    ensures
        r == find_byte(s@, i as int, b),
{
    let mut k: usize = i;
    while k < s.len() && s[k] != b
        invariant
            i <= k <= s@.len(),
            find_byte(s@, i as int, b) == find_byte(s@, k as int, b),
        decreases s@.len() - k,
    {
        proof {
            assert(find_byte(s@, k as int, b) == find_byte(s@, k + 1, b));
        }
        k = k + 1;
    }
    k
}

/// First index at or after `i` whose byte is not a class character, or `s.len()`.
pub open spec fn class_end(s: Seq<u8>, i: int) -> int
    decreases s.len() - i,
{
    if i < 0 {
        0
    } else if i >= s.len() {
        s.len() as int
    } else if !is_class_char(s[i]) {
        i
    } else {
        class_end(s, i + 1)
    }
}

pub fn class_end_exec(s: &Vec<u8>, i: usize) -> (r: usize)
    requires
        i <= s@.len(),
    ensures
        r == class_end(s@, i as int),
{
    let mut k: usize = i;
    while k < s.len() && ((97 <= s[k] && s[k] <= 122) || s[k] == 95)
        invariant
            i <= k <= s@.len(),
            class_end(s@, i as int) == class_end(s@, k as int),
        decreases s@.len() - k,
    {
        proof {
            assert(class_end(s@, k as int) == class_end(s@, k + 1));
        }
        k = k + 1;
    }
    k
}

/// First index at or after `i` whose byte is not an identifier character.
pub open spec fn ident_end(s: Seq<u8>, i: int) -> int
    decreases s.len() - i,
{
    if i < 0 {
        0
    } else if i >= s.len() {
        s.len() as int
    } else if !is_ident_char(s[i]) {
        i
    } else {
        ident_end(s, i + 1)
    }
}

pub fn ident_end_exec(s: &Vec<u8>, i: usize) -> (r: usize)
    requires
        i <= s@.len(),
    ensures
        r == ident_end(s@, i as int),
{
    let mut k: usize = i;
    while k < s.len() && ((97 <= s[k] && s[k] <= 122) || (65 <= s[k] && s[k] <= 90)
        || (48 <= s[k] && s[k] <= 57) || s[k] == 95)
        invariant
            i <= k <= s@.len(),
            ident_end(s@, i as int) == ident_end(s@, k as int),
        decreases s@.len() - k,
    {
        proof {
            assert(ident_end(s@, k as int) == ident_end(s@, k + 1));
        }
        k = k + 1;
    }
    k
}

/// Index of the first non-whitespace byte at or after `i`, or `s.len()`.
pub open spec fn ws_end(s: Seq<u8>, i: int) -> int
    decreases s.len() - i,
{
    if i < 0 {
        0
    } else if i >= s.len() {
        s.len() as int
    } else if !is_ws(s[i]) {
        i
    } else {
        ws_end(s, i + 1)
    }
}

pub proof fn lemma_ws_end(s: Seq<u8>, i: int)
    requires
        0 <= i <= s.len(),
    ensures
        i <= ws_end(s, i) <= s.len(),
    decreases s.len() - i,
{
    if i < s.len() && is_ws(s[i]) {
        lemma_ws_end(s, i + 1);
    }
}

pub fn ws_end_exec(s: &Vec<u8>, i: usize) -> (r: usize)
    requires
        i <= s@.len(),
    ensures
        r == ws_end(s@, i as int),
{
    let mut k: usize = i;
    while k < s.len() && (s[k] == 32 || s[k] == 9 || s[k] == 13)
        invariant
            i <= k <= s@.len(),
            ws_end(s@, i as int) == ws_end(s@, k as int),
        decreases s@.len() - k,
    {
        proof {
            assert(ws_end(s@, k as int) == ws_end(s@, k + 1));
        }
        k = k + 1;
    }
    k
}

/// One past the last non-whitespace byte of `s`, or 0 when all whitespace.
pub open spec fn ws_rend(s: Seq<u8>) -> int
    decreases s.len(),
{
    if s.len() == 0 {
        0
    } else if is_ws(s.last()) {
        ws_rend(s.drop_last())
    } else {
        s.len() as int
    }
}

pub proof fn lemma_ws_rend(s: Seq<u8>)
    ensures
        0 <= ws_rend(s) <= s.len(),
    decreases s.len(),
{
    if s.len() > 0 && is_ws(s.last()) {
        lemma_ws_rend(s.drop_last());
    }
}

pub fn ws_rend_exec(s: &Vec<u8>) -> (r: usize)
    ensures
        r == ws_rend(s@),
{
    let mut h: usize = s.len();
    proof {
        assert(s@.take(s@.len() as int) =~= s@);
    }
    while h > 0 && (s[h - 1] == 32 || s[h - 1] == 9 || s[h - 1] == 13)
        invariant
            h <= s@.len(),
            ws_rend(s@) == ws_rend(s@.take(h as int)),
        decreases h,
    {
        proof {
            assert(s@.take(h as int).last() == s@[h - 1]);
            assert(s@.take(h as int).drop_last() =~= s@.take(h - 1));
        }
        h = h - 1;
    }
    proof {
        if h > 0 {
            assert(s@.take(h as int).last() == s@[h - 1]);
            assert(ws_rend(s@.take(h as int)) == h);
        }
    }
    h
}

/// `s` with leading and trailing whitespace removed.
pub open spec fn trim(s: Seq<u8>) -> Seq<u8> {
    if ws_rend(s) <= ws_end(s, 0) {
        Seq::empty()
    } else {
        s.subrange(ws_end(s, 0), ws_rend(s))
    }
}

pub fn trim_exec(s: &Vec<u8>) -> (out: Vec<u8>)
    ensures
        out@ == trim(s@),
{
    proof {
        lemma_ws_end(s@, 0);
        lemma_ws_rend(s@);
    }
    let lo = ws_end_exec(s, 0);
    let hi = ws_rend_exec(s);
    if hi <= lo {
        let out: Vec<u8> = Vec::new();
        proof {
            assert(out@ =~= trim(s@));
        }
        out
    } else {
        copy_range(s, lo, hi)
    }
}

/// Whether `pat` occurs in `s` at position `i`.
pub open spec fn prefix_at(s: Seq<u8>, i: int, pat: Seq<u8>) -> bool {
    0 <= i && i + pat.len() <= s.len() && s.subrange(i, i + pat.len()) == pat
}

pub fn prefix_at_exec(s: &Vec<u8>, i: usize, pat: &Vec<u8>) -> (r: bool)
    requires
        i <= s@.len(),
    ensures
        r == prefix_at(s@, i as int, pat@),
{
    let n = s.len();
    if n - i < pat.len() {
        return false;
    }
    let mut k: usize = 0;
    while k < pat.len()
        invariant
            k <= pat@.len(),
            i + pat@.len() <= s@.len() <= usize::MAX,
            forall|m: int| 0 <= m < k ==> s@[i + m] == pat@[m],
        decreases pat@.len() - k,
    {
        proof {
            assert(i + k < s@.len());
        }
        if s[i + k] != pat[k] {
            proof {
                assert(s@.subrange(i as int, i + pat@.len())[k as int] == s@[i + k]);
            }
            return false;
        }
        k = k + 1;
    }
    proof {
        assert(s@.subrange(i as int, i + pat@.len()) =~= pat@);
    }
    true
}

/// Whether `pat` occurs anywhere in `s`.
pub open spec fn contains_seq(s: Seq<u8>, pat: Seq<u8>) -> bool {
    exists|i: int| prefix_at(s, i, pat)
}

pub fn contains_seq_exec(s: &Vec<u8>, pat: &Vec<u8>) -> (r: bool)
    ensures
        r == contains_seq(s@, pat@),
{
    let mut i: usize = 0;
    while i < s.len()
        invariant
            i <= s@.len(),
            forall|m: int| 0 <= m < i ==> !prefix_at(s@, m, pat@),
        decreases s@.len() - i,
    {
        if prefix_at_exec(s, i, pat) {
            return true;
        }
        i = i + 1;
    }
    if prefix_at_exec(s, i, pat) {
        return true;
    }
    false
}

/// Copy of `s[i..j]` as a fresh vector.
pub fn copy_range(s: &Vec<u8>, i: usize, j: usize) -> (out: Vec<u8>)
    requires
        i <= j <= s@.len(),
    ensures
        out@ == s@.subrange(i as int, j as int),
{
    let mut out: Vec<u8> = Vec::new();
    let mut k: usize = i;
    while k < j
        invariant
            i <= k <= j <= s@.len(),
            out@ == s@.subrange(i as int, k as int),
        decreases j - k,
    {
        out.push(s[k]);
        proof {
            assert(out@ =~= s@.subrange(i as int, k + 1));
        }
        k = k + 1;
    }
    out
}

/// A fresh copy of `x`.
pub fn clone_bytes(x: &Vec<u8>) -> (out: Vec<u8>)
    ensures
        out@ == x@,
{
    let out = copy_range(x, 0, x.len());
    proof {
        assert(x@.subrange(0, x@.len() as int) =~= x@);
    }
    out
}

/// Append all of `src` to `dst`.
pub fn append_all(dst: &mut Vec<u8>, src: &Vec<u8>)
    ensures
        final(dst)@ == old(dst)@ + src@,
{
    let mut k: usize = 0;
    proof {
        assert(dst@ =~= old(dst)@ + src@.subrange(0, 0));
    }
    while k < src.len()
        invariant
            k <= src@.len(),
            dst@ == old(dst)@ + src@.subrange(0, k as int),
        decreases src@.len() - k,
    {
        dst.push(src[k]);
        proof {
            assert(dst@ =~= old(dst)@ + src@.subrange(0, k + 1));
        }
        k = k + 1;
    }
    proof {
        assert(src@.subrange(0, src@.len() as int) =~= src@);
    }
}

/// Lexicographic (shortlex-free, strictly by bytes) order on byte sequences:
/// a prefix comes before its extensions.
pub open spec fn lex_le(a: Seq<u8>, b: Seq<u8>) -> bool
    decreases a.len(),
{
    if a.len() == 0 {
        true
    } else if b.len() == 0 {
        false
    } else if a[0] < b[0] {
        true
    } else if a[0] > b[0] {
        false
    } else {
        lex_le(a.drop_first(), b.drop_first())
    }
}

fn lex_le_from(a: &Vec<u8>, b: &Vec<u8>, i: usize) -> (r: bool)
    requires
        i <= a@.len(),
        i <= b@.len(),
    ensures
        r == lex_le(a@.skip(i as int), b@.skip(i as int)),
    decreases a@.len() - i,
{
    if i == a.len() {
        true
    } else if i == b.len() {
        false
    } else if a[i] < b[i] {
        proof {
            assert(a@.skip(i as int)[0] == a@[i as int]);
            assert(b@.skip(i as int)[0] == b@[i as int]);
        }
        true
    } else if a[i] > b[i] {
        proof {
            assert(a@.skip(i as int)[0] == a@[i as int]);
            assert(b@.skip(i as int)[0] == b@[i as int]);
        }
        false
    } else {
        proof {
            assert(a@.skip(i as int)[0] == a@[i as int]);
            assert(b@.skip(i as int)[0] == b@[i as int]);
            assert(a@.skip(i as int).drop_first() =~= a@.skip(i + 1));
            assert(b@.skip(i as int).drop_first() =~= b@.skip(i + 1));
        }
        lex_le_from(a, b, i + 1)
    }
}

pub fn lex_le_exec(a: &Vec<u8>, b: &Vec<u8>) -> (r: bool)
    ensures
        r == lex_le(a@, b@),
{
    proof {
        assert(a@.skip(0) =~= a@);
        assert(b@.skip(0) =~= b@);
    }
    lex_le_from(a, b, 0)
}

pub fn bytes_eq(a: &Vec<u8>, b: &Vec<u8>) -> (r: bool)
    ensures
        r == (a@ == b@),
{
    if a.len() != b.len() {
        return false;
    }
    let mut k: usize = 0;
    while k < a.len()
        invariant
            k <= a@.len(),
            a@.len() == b@.len(),
            forall|m: int| 0 <= m < k ==> a@[m] == b@[m],
        decreases a@.len() - k,
    {
        if a[k] != b[k] {
            return false;
        }
        k = k + 1;
    }
    proof {
        assert(a@ =~= b@);
    }
    true
}

/// Decimal digits of `n`, most significant first.
pub open spec fn dec_digits(n: nat) -> Seq<u8>
    decreases n,
{
    if n < 10 {
        seq![(48 + n) as u8]
    } else {
        dec_digits(n / 10).push((48 + n % 10) as u8)
    }
}

/// Renders `n` in decimal.
pub fn dec_exec(n: u64) -> (out: Vec<u8>)
    ensures
        out@ == dec_digits(n as nat),
    decreases n,
{
    if n < 10 {
        let mut out: Vec<u8> = Vec::new();
        out.push((48 + n) as u8);
        proof {
            assert(out@ =~= dec_digits(n as nat));
        }
        out
    } else {
        let mut out = dec_exec(n / 10);
        out.push((48 + (n % 10)) as u8);
        out
    }
}

} // verus!
