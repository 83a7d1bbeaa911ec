//! Byte-sequence utilities the whole crate is built on: equality,
//! ASCII-case-insensitive comparison, prefix and substring tests, and
//! leftmost non-overlapping substring replacement.

use vstd::prelude::*;

verus! {

/// ASCII lower-casing of a single byte.
pub open spec fn lower_byte(b: u8) -> u8 {
    if 65 <= b <= 90 {
        (b + 32) as u8
    } else {
        b
    }
}

/// ASCII lower-casing of a byte sequence.
pub open spec fn lower(s: Seq<u8>) -> Seq<u8> {
    s.map_values(|b: u8| lower_byte(b))
}

/// `pat` occurs in `s` at offset `i`.
pub open spec fn match_at(s: Seq<u8>, pat: Seq<u8>, i: int) -> bool {
    0 <= i && i + pat.len() <= s.len() && s.subrange(i, i + pat.len() as int) == pat
}

/// `s` begins with `p`.
pub open spec fn begins_with(s: Seq<u8>, p: Seq<u8>) -> bool {
    match_at(s, p, 0)
}

/// `pat` occurs somewhere in `s`.
pub open spec fn contains_seq(s: Seq<u8>, pat: Seq<u8>) -> bool {
    exists|i: int| match_at(s, pat, i)
}

/// Every occurrence of `pat` in `s` replaced by `to`, scanning left to
/// right and never rescanning replaced text; an empty `pat` leaves `s`
/// unchanged.
pub open spec fn spec_replace(s: Seq<u8>, pat: Seq<u8>, to: Seq<u8>) -> Seq<u8>
    decreases s.len(),
{
    if pat.len() == 0 || s.len() < pat.len() {
        s
    } else if s.take(pat.len() as int) == pat {
        to + spec_replace(s.skip(pat.len() as int), pat, to)
    } else {
        s.take(1) + spec_replace(s.skip(1), pat, to)
    }
}

/// Exact byte-for-byte equality of two slices.
pub fn bytes_eq(a: &[u8], b: &[u8]) -> (r: bool)
    ensures
        r == (a@ == b@),
{
    if a.len() != b.len() {
        assert(a@ != b@) by {
            assert(a@.len() != b@.len());
        }
        return false;
    }
    let mut j: usize = 0;
    while j < a.len()
        invariant
            j <= a.len(),
            a@.len() == b@.len(),
            forall|k: int| 0 <= k < j ==> a@[k] == b@[k],
        decreases a.len() - j,
    {
        if a[j] != b[j] {
            return false;
        }
        j += 1;
    }
    proof {
        assert(a@ =~= b@);
    }
    true
}

/// ASCII lower-casing of a single byte.
pub fn lower_u8(b: u8) -> (r: u8)
    ensures
        r == lower_byte(b),
{
    if 65 <= b && b <= 90 {
        b + 32
    } else {
        b
    }
}

/// Equality of two slices up to ASCII case.
pub fn eq_ignore_case(a: &[u8], b: &[u8]) -> (r: bool)
    ensures
        r == (lower(a@) == lower(b@)),
{
    if a.len() != b.len() {
        assert(lower(a@) != lower(b@)) by {
            assert(lower(a@).len() != lower(b@).len());
        }
        return false;
    }
    let mut j: usize = 0;
    while j < a.len()
        invariant
            j <= a.len(),
            a@.len() == b@.len(),
            forall|k: int| 0 <= k < j ==> lower_byte(a@[k]) == lower_byte(b@[k]),
        decreases a.len() - j,
    {
        if lower_u8(a[j]) != lower_u8(b[j]) {
            assert(lower(a@)[j as int] != lower(b@)[j as int]);
            return false;
        }
        j += 1;
    }
    proof {
        assert(lower(a@) =~= lower(b@));
    }
    true
}

/// `pat` occurs in `s` at offset `i` (executable form of `match_at`).
pub fn match_at_exec(s: &[u8], pat: &[u8], i: usize) -> (r: bool)
    requires
        i <= s.len(),
    ensures
        r == match_at(s@, pat@, i as int),
{
    if s.len() - i < pat.len() {
        return false;
    }
    let mut j: usize = 0;
    while j < pat.len()
        invariant
            j <= pat.len(),
            i + pat.len() <= s.len(),
            forall|k: int| 0 <= k < j ==> s@[i + k] == pat@[k],
        decreases pat.len() - j,
    {
        if s[i + j] != pat[j] {
            assert(s@.subrange(i as int, i + pat@.len() as int)[j as int] != pat@[j as int]);
            return false;
        }
        j += 1;
    }
    proof {
        assert(s@.subrange(i as int, i + pat@.len() as int) =~= pat@);
    }
    true
}

/// `s` begins with `p` (executable form of `begins_with`).
pub fn begins_with_exec(s: &[u8], p: &[u8]) -> (r: bool)
    ensures
        r == begins_with(s@, p@),
{
    match_at_exec(s, p, 0)
}

/// `pat` occurs somewhere in `s` (executable form of `contains_seq`).
pub fn contains_exec(s: &[u8], pat: &[u8]) -> (r: bool)
    ensures
        r == contains_seq(s@, pat@),
{
    if pat.len() > s.len() {
        assert(!contains_seq(s@, pat@)) by {
            assert(forall|i: int| !match_at(s@, pat@, i));
        }
        return false;
    }
    if pat.len() == 0 {
        proof {
            assert(s@.subrange(0, 0) =~= pat@);
            assert(match_at(s@, pat@, 0));
        }
        return true;
    }
    let mut i: usize = 0;
    while i <= s.len() - pat.len()
        invariant
            1 <= pat.len() <= s.len(),
            i <= s.len() - pat.len() + 1,
            forall|k: int| 0 <= k < i ==> !match_at(s@, pat@, k),
        decreases s.len() - pat.len() + 1 - i,
    {
        if match_at_exec(s, pat, i) {
            return true;
        }
        i += 1;
    }
    proof {
        assert(forall|k: int| match_at(s@, pat@, k) ==> 0 <= k <= s@.len() - pat@.len());
    }
    false
}

/// Append every byte of `src` to `dst`.
pub fn push_all(dst: &mut Vec<u8>, src: &[u8])
    ensures
        final(dst)@ == old(dst)@ + src@,
{
    let mut j: usize = 0;
    while j < src.len()
        invariant
            j <= src.len(),
            dst@ == old(dst)@ + src@.take(j as int),
        decreases src.len() - j,
    {
        dst.push(src[j]);
        proof {
            assert(old(dst)@ + src@.take(j as int) + seq![src@[j as int]] =~= old(dst)@
                + src@.take(j + 1));
        }
        j += 1;
    }
    proof {
        assert(src@.take(src@.len() as int) =~= src@);
    }
}

/// A copy of a byte vector.
pub fn copy_bytes(v: &[u8]) -> (r: Vec<u8>)
    ensures
        r@ == v@,
{
    let mut out: Vec<u8> = Vec::new();
    push_all(&mut out, v);
    out
}

/// Every occurrence of `pat` in `s` replaced by `to` (executable form of
/// `spec_replace`).
pub fn replace_bytes(s: &[u8], pat: &[u8], to: &[u8]) -> (r: Vec<u8>)
    ensures
        r@ == spec_replace(s@, pat@, to@),
{
    if pat.len() == 0 {
        return copy_bytes(s);
    }
    let mut out: Vec<u8> = Vec::new();
    let mut i: usize = 0;
    proof {
        assert(s@.skip(0) =~= s@);
        assert(Seq::<u8>::empty() + spec_replace(s@, pat@, to@) =~= spec_replace(s@, pat@, to@));
    }
    while i < s.len()
        invariant
            pat@.len() > 0,
            i <= s.len(),
            out@ + spec_replace(s@.skip(i as int), pat@, to@) == spec_replace(s@, pat@, to@),
        decreases s.len() - i,
    {
        let ghost rest = s@.skip(i as int);
        if match_at_exec(s, pat, i) {
            push_all(&mut out, to);
            proof {
                assert(rest.take(pat@.len() as int) =~= s@.subrange(
                    i as int,
                    i + pat@.len() as int,
                ));
                assert(rest.skip(pat@.len() as int) =~= s@.skip(i + pat@.len()));
                assert(spec_replace(rest, pat@, to@) == to@ + spec_replace(
                    s@.skip(i + pat@.len()),
                    pat@,
                    to@,
                ));
            }
            i += pat.len();
        } else {
            out.push(s[i]);
            proof {
                assert(rest.skip(1) =~= s@.skip(i + 1));
                if rest.len() < pat@.len() {
                    // both the remainder and its tail are left unchanged
                    assert(spec_replace(rest, pat@, to@) == rest);
                    assert(s@.skip(i + 1).len() < pat@.len());
                    assert(spec_replace(s@.skip(i + 1), pat@, to@) == s@.skip(i + 1));
                    assert(rest =~= seq![s@[i as int]] + s@.skip(i + 1));
                } else {
                    assert(rest.take(pat@.len() as int) =~= s@.subrange(
                        i as int,
                        i + pat@.len() as int,
                    ));
                    assert(rest.take(pat@.len() as int) != pat@);
                    assert(rest.take(1) =~= seq![s@[i as int]]);
                    assert(spec_replace(rest, pat@, to@) == seq![s@[i as int]] + spec_replace(
                        s@.skip(i + 1),
                        pat@,
                        to@,
                    ));
                }
            }
            i += 1;
        }
    }
    proof {
        assert(s@.skip(s@.len() as int) =~= Seq::<u8>::empty());
        assert(spec_replace(Seq::<u8>::empty(), pat@, to@) == Seq::<u8>::empty());
        assert(out@ + Seq::<u8>::empty() =~= out@);
    }
    out
}

/// `s` ends with `p`.
pub open spec fn ends_with(s: Seq<u8>, p: Seq<u8>) -> bool {
    match_at(s, p, s.len() - p.len())
}

/// `s` ends with `p` (executable form of `ends_with`).
pub fn ends_with_exec(s: &[u8], p: &[u8]) -> (r: bool)
    ensures
        r == ends_with(s@, p@),
{
    if p.len() > s.len() {
        return false;
    }
    match_at_exec(s, p, s.len() - p.len())
}

/// `s` split at every occurrence of `sep`: always at least one piece, an
/// empty input giving one empty piece, exactly as `str::split` does.
pub open spec fn spec_split(s: Seq<u8>, sep: u8) -> Seq<Seq<u8>>
    decreases s.len(),
{
    if s.len() == 0 {
        seq![Seq::<u8>::empty()]
    } else if s[0] == sep {
        seq![Seq::<u8>::empty()] + spec_split(s.skip(1), sep)
    } else {
        let rest = spec_split(s.skip(1), sep);
        seq![seq![s[0]] + rest[0]] + rest.skip(1)
    }
}

/// A split has at least one piece.
pub proof fn lemma_split_nonempty(s: Seq<u8>, sep: u8)
    ensures
        spec_split(s, sep).len() >= 1,
    decreases s.len(),
{
    if s.len() == 0 {
    } else if s[0] == sep {
    } else {
        lemma_split_nonempty(s.skip(1), sep);
    }
}

/// The first piece of `segs` extended on the left by `p`.
pub open spec fn prepend_first(p: Seq<u8>, segs: Seq<Seq<u8>>) -> Seq<Seq<u8>>
    recommends
        segs.len() >= 1,
{
    seq![p + segs[0]] + segs.skip(1)
}

/// `s` split at every occurrence of `sep` (executable form of
/// `spec_split`).
pub fn split_bytes(s: &[u8], sep: u8) -> (r: Vec<Vec<u8>>)
    ensures
        r@.map_values(|v: Vec<u8>| v@) == spec_split(s@, sep),
        r@.len() >= 1,
{
    let mut out: Vec<Vec<u8>> = Vec::new();
    let mut cur: Vec<u8> = Vec::new();
    let mut i: usize = 0;
    proof {
        lemma_split_nonempty(s@, sep);
        assert(s@.skip(0) =~= s@);
        assert(out@.map_values(|v: Vec<u8>| v@) + prepend_first(cur@, spec_split(s@, sep)) =~~=
            spec_split(s@, sep));
    }
    while i < s.len()
        invariant
            i <= s.len(),
            out@.map_values(|v: Vec<u8>| v@) + prepend_first(cur@, spec_split(s@.skip(i as int), sep))
                == spec_split(s@, sep),
        decreases s.len() - i,
    {
        let ghost rest = s@.skip(i as int);
        let ghost out_views = out@.map_values(|v: Vec<u8>| v@);
        let ghost cur0 = cur@;
        let ghost after = spec_split(s@.skip(i + 1), sep);
        proof {
            assert(rest[0] == s@[i as int]);
            assert(rest.skip(1) =~= s@.skip(i + 1));
            lemma_split_nonempty(s@.skip(i + 1), sep);
        }
        if s[i] == sep {
            proof {
                assert(spec_split(rest, sep) == seq![Seq::<u8>::empty()] + after);
                assert(out_views + prepend_first(cur0, seq![Seq::<u8>::empty()] + after) =~~=
                    out_views.push(cur0) + prepend_first(Seq::<u8>::empty(), after));
            }
            out.push(cur);
            cur = Vec::new();
            proof {
                assert(out@.map_values(|v: Vec<u8>| v@) =~~= out_views.push(cur0));
            }
        } else {
            proof {
                assert(spec_split(rest, sep) == seq![seq![rest[0]] + after[0]] + after.skip(1));
                assert(prepend_first(cur0, spec_split(rest, sep)) =~~= prepend_first(
                    cur0.push(s@[i as int]),
                    after,
                ));
            }
            cur.push(s[i]);
        }
        i += 1;
    }
    proof {
        assert(s@.skip(s@.len() as int) =~= Seq::<u8>::empty());
    }
    let ghost out_views = out@.map_values(|v: Vec<u8>| v@);
    let ghost cur_last = cur@;
    out.push(cur);
    proof {
        assert(out@.map_values(|v: Vec<u8>| v@) =~~= out_views.push(cur_last));
        assert(out_views.push(cur_last) =~~= out_views + prepend_first(
            cur_last,
            spec_split(Seq::<u8>::empty(), sep),
        ));
    }
    out
}

/// A decimal digit.
pub open spec fn is_digit(b: u8) -> bool {
    48 <= b <= 57
}

/// Every byte a decimal digit.
pub open spec fn all_digits(s: Seq<u8>) -> bool {
    forall|i: int| 0 <= i < s.len() ==> is_digit(#[trigger] s[i])
}

/// The number the digits spell, most significant first.
pub open spec fn dec_value(s: Seq<u8>) -> int
    decreases s.len(),
{
    if s.len() == 0 {
        0
    } else {
        dec_value(s.drop_last()) * 10 + s.last() - 48
    }
}

/// A longer run of digits never spells a smaller number.
pub proof fn lemma_dec_value_grows(s: Seq<u8>, i: int, j: int)
    requires
        0 <= i <= j <= s.len(),
        all_digits(s),
    ensures
        0 <= dec_value(s.take(i)) <= dec_value(s.take(j)),
    decreases j - i,
{
    if i == j {
        lemma_dec_value_nonneg(s.take(i));
    } else {
        lemma_dec_value_grows(s, i, j - 1);
        assert(s.take(j).drop_last() =~= s.take(j - 1));
        assert(is_digit(s.take(j).last()));
    }
}

/// Digits spell a non-negative number.
pub proof fn lemma_dec_value_nonneg(s: Seq<u8>)
    requires
        all_digits(s),
    ensures
        dec_value(s) >= 0,
    decreases s.len(),
{
    if s.len() > 0 {
        assert(all_digits(s.drop_last())) by {
            assert(forall|k: int| 0 <= k < s.len() - 1 ==> s.drop_last()[k] == s[k]);
        }
        lemma_dec_value_nonneg(s.drop_last());
        assert(is_digit(s.last()));
    }
}

/// What parsing a decimal `u16` yields: the spelled number, unless the
/// input is empty, has a non-digit, or spells more than 65535.
pub open spec fn spec_parse_u16(s: Seq<u8>) -> Option<u16> {
    if s.len() == 0 || !all_digits(s) || dec_value(s) > 65535 {
        None
    } else {
        Some(dec_value(s) as u16)
    }
}

/// Parse a decimal `u16` (executable form of `spec_parse_u16`).
pub fn parse_u16(s: &[u8]) -> (r: Option<u16>)
    ensures
        r == spec_parse_u16(s@),
{
    if s.len() == 0 {
        return None;
    }
    let mut acc: u32 = 0;
    let mut i: usize = 0;
    proof {
        assert(s@.take(0) =~= Seq::<u8>::empty());
    }
    while i < s.len()
        invariant
            i <= s.len(),
            acc <= 65535,
            all_digits(s@.take(i as int)),
            acc == dec_value(s@.take(i as int)),
        decreases s.len() - i,
    {
        let b = s[i];
        proof {
            assert(s@.take(i + 1).drop_last() =~= s@.take(i as int));
            assert(s@.take(i + 1).last() == s@[i as int]);
        }
        if b < 48 || b > 57 {
            assert(!all_digits(s@)) by {
                assert(!is_digit(s@[i as int]));
            }
            return None;
        }
        assert(all_digits(s@.take(i + 1))) by {
            assert(forall|k: int| 0 <= k < i ==> s@.take(i + 1)[k] == s@.take(i as int)[k]);
        }
        let next: u32 = acc * 10 + (b - 48) as u32;
        if next > 65535 {
            proof {
                assert(dec_value(s@.take(i + 1)) > 65535);
                if all_digits(s@) {
                    lemma_dec_value_grows(s@, i + 1, s@.len() as int);
                    assert(s@.take(s@.len() as int) =~= s@);
                }
            }
            return None;
        }
        acc = next;
        i += 1;
    }
    proof {
        assert(s@.take(s@.len() as int) =~= s@);
    }
    Some(acc as u16)
}

/// The decimal digits of `n`, most significant first.
pub open spec fn dec_digits(n: nat) -> Seq<u8>
    decreases n,
{
    if n < 10 {
        seq![(48 + n) as u8]
    } else {
        dec_digits(n / 10).push((48 + n % 10) as u8)
    }
}

/// The decimal digits of a 16-bit number, most significant first.
pub fn u16_to_dec(n: u16) -> (r: Vec<u8>)
    ensures
        r@ == dec_digits(n as nat),
    decreases n,
{
    if n < 10 {
        let mut v: Vec<u8> = Vec::new();
        v.push(48 + n as u8);
        v
    } else {
        let mut v = u16_to_dec(n / 10);
        v.push(48 + (n % 10) as u8);
        v
    }
}

} // verus!
