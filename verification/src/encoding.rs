//! Integers on the wire: little-endian bytes and the compact-size form.

use vstd::prelude::*;

verus! {

/// The two bytes of a number below 2^16, low byte first.
#[verifier::opaque]
pub open spec fn le2(n: nat) -> Seq<u8> {
    seq![(n % 256) as u8, (n / 256 % 256) as u8]
}

/// The four bytes of a number below 2^32, low byte first.
#[verifier::opaque]
pub open spec fn le4(n: nat) -> Seq<u8> {
    le2(n % 0x1_0000) + le2(n / 0x1_0000 % 0x1_0000)
}

/// The eight bytes of a number below 2^64, low byte first.
pub open spec fn le8(n: nat) -> Seq<u8> {
    le4(n % 0x1_0000_0000) + le4(n / 0x1_0000_0000 % 0x1_0000_0000)
}

/// The number that the two bytes at `pos` stand for, low byte first.
#[verifier::opaque]
pub open spec fn le2_value(b: Seq<u8>, pos: int) -> nat {
    b[pos] as nat + 0x100 * b[pos + 1] as nat
}

/// The number that the four bytes at `pos` stand for, low byte first.
#[verifier::opaque]
pub open spec fn le4_value(b: Seq<u8>, pos: int) -> nat {
    le2_value(b, pos) + 0x1_0000 * le2_value(b, pos + 2)
}

/// The number that the eight bytes at `pos` stand for, low byte first.
pub open spec fn le8_value(b: Seq<u8>, pos: int) -> nat {
    le4_value(b, pos) + 0x1_0000_0000 * le4_value(b, pos + 4)
}

/// The compact-size form of a number: one byte below `0xFD`, else a marker
/// byte and the two, four or eight bytes of the shortest form that holds it.
#[verifier::opaque]
pub open spec fn compact_size(n: nat) -> Seq<u8> {
    if n < 0xFD {
        seq![n as u8]
    } else if n <= 0xFFFF {
        seq![0xFDu8] + le2(n)
    } else if n <= 0xFFFF_FFFF {
        seq![0xFEu8] + le4(n)
    } else {
        seq![0xFFu8] + le8(n)
    }
}

/// The compact-size number that stands at `pos`, with the place behind it.
/// `None` where the bytes end too early, or the number is not in its
/// shortest form.
#[verifier::opaque]
pub open spec fn read_compact_size(b: Seq<u8>, pos: int) -> Option<(nat, int)> {
    if pos < 0 || pos >= b.len() {
        None
    } else if b[pos] < 0xFD {
        Some((b[pos] as nat, pos + 1))
    } else if b[pos] == 0xFD {
        if pos + 3 <= b.len() && le2_value(b, pos + 1) >= 0xFD {
            Some((le2_value(b, pos + 1), pos + 3))
        } else {
            None
        }
    } else if b[pos] == 0xFE {
        if pos + 5 <= b.len() && le4_value(b, pos + 1) > 0xFFFF {
            Some((le4_value(b, pos + 1), pos + 5))
        } else {
            None
        }
    } else {
        if pos + 9 <= b.len() && le8_value(b, pos + 1) > 0xFFFF_FFFF {
            Some((le8_value(b, pos + 1), pos + 9))
        } else {
            None
        }
    }
}

/// The number that two bytes stand for has those bytes.
pub proof fn lemma_bytes_of_le2_value(b: Seq<u8>, pos: int)
    requires
        0 <= pos,
        pos + 2 <= b.len(),
    ensures
        le2_value(b, pos) < 0x1_0000,
        le2(le2_value(b, pos)) == b.subrange(pos, pos + 2),
{
    reveal(le2);
    reveal(le2_value);
    assert(le2(le2_value(b, pos)) =~= b.subrange(pos, pos + 2));
}

/// The number that four bytes stand for has those bytes.
pub proof fn lemma_bytes_of_le4_value(b: Seq<u8>, pos: int)
    requires
        0 <= pos,
        pos + 4 <= b.len(),
    ensures
        le4_value(b, pos) < 0x1_0000_0000,
        le4(le4_value(b, pos)) == b.subrange(pos, pos + 4),
{
    reveal(le4);
    reveal(le4_value);
    lemma_bytes_of_le2_value(b, pos);
    lemma_bytes_of_le2_value(b, pos + 2);
    let lo = le2_value(b, pos);
    let hi = le2_value(b, pos + 2);
    let v = le4_value(b, pos);
    assert(v == lo + 0x1_0000 * hi);
    assert(v % 0x1_0000 == lo && v / 0x1_0000 == hi);
    assert(b.subrange(pos, pos + 4) =~= b.subrange(pos, pos + 2) + b.subrange(pos + 2, pos + 4));
}

/// The number that eight bytes stand for has those bytes.
pub proof fn lemma_bytes_of_le8_value(b: Seq<u8>, pos: int)
    requires
        0 <= pos,
        pos + 8 <= b.len(),
    ensures
        le8_value(b, pos) < 0x1_0000_0000_0000_0000,
        le8(le8_value(b, pos)) == b.subrange(pos, pos + 8),
{
    lemma_bytes_of_le4_value(b, pos);
    lemma_bytes_of_le4_value(b, pos + 4);
    let lo = le4_value(b, pos);
    let hi = le4_value(b, pos + 4);
    let v = le8_value(b, pos);
    assert(v == lo + 0x1_0000_0000 * hi);
    assert(v % 0x1_0000_0000 == lo && v / 0x1_0000_0000 == hi);
    assert(b.subrange(pos, pos + 8) =~= b.subrange(pos, pos + 4) + b.subrange(pos + 4, pos + 8));
}

/// The two bytes of a number stand for the number.
pub proof fn lemma_le2_value_of_bytes(n: nat, before: Seq<u8>, behind: Seq<u8>)
    requires
        n < 0x1_0000,
    ensures
        le2(n).len() == 2,
        le2_value(before + le2(n) + behind, before.len() as int) == n,
{
    reveal(le2);
    reveal(le2_value);
    let b = before + le2(n) + behind;
    assert(b[before.len() as int] == le2(n)[0]);
    assert(b[before.len() as int + 1] == le2(n)[1]);
}

/// The four bytes of a number stand for the number.
pub proof fn lemma_le4_value_of_bytes(n: nat, before: Seq<u8>, behind: Seq<u8>)
    requires
        n < 0x1_0000_0000,
    ensures
        le4(n).len() == 4,
        le4_value(before + le4(n) + behind, before.len() as int) == n,
{
    reveal(le4);
    reveal(le4_value);
    let lo = n % 0x1_0000;
    let hi = n / 0x1_0000;
    assert(hi % 0x1_0000 == hi);
    lemma_le2_value_of_bytes(lo, before, le2(hi) + behind);
    lemma_le2_value_of_bytes(hi, before + le2(lo), behind);
    assert(before + le4(n) + behind =~= before + le2(lo) + (le2(hi) + behind));
    assert(before + le4(n) + behind =~= (before + le2(lo)) + le2(hi) + behind);
}

/// The eight bytes of a number stand for the number.
pub proof fn lemma_le8_value_of_bytes(n: nat, before: Seq<u8>, behind: Seq<u8>)
    requires
        n < 0x1_0000_0000_0000_0000,
    ensures
        le8(n).len() == 8,
        le8_value(before + le8(n) + behind, before.len() as int) == n,
{
    let lo = n % 0x1_0000_0000;
    let hi = n / 0x1_0000_0000;
    assert(hi % 0x1_0000_0000 == hi);
    lemma_le4_value_of_bytes(lo, before, le4(hi) + behind);
    lemma_le4_value_of_bytes(hi, before + le4(lo), behind);
    assert(before + le8(n) + behind =~= before + le4(lo) + (le4(hi) + behind));
    assert(before + le8(n) + behind =~= (before + le4(lo)) + le4(hi) + behind);
}

/// A compact-size form has one, three, five or nine bytes, and its first byte
/// tells which.
pub proof fn lemma_compact_size_shape(n: u64)
    ensures
        ({
            let cs = compact_size(n as nat);
            &&& n < 0xFD ==> cs.len() == 1 && cs[0] == n
            &&& 0xFD <= n <= 0xFFFF ==> cs.len() == 3 && cs[0] == 0xFD
            &&& 0xFFFF < n <= 0xFFFF_FFFF ==> cs.len() == 5 && cs[0] == 0xFE
            &&& 0xFFFF_FFFF < n ==> cs.len() == 9 && cs[0] == 0xFF
        }),
{
    reveal(compact_size);
    lemma_le2_value_of_bytes((n % 0x1_0000) as nat, seq![], seq![]);
    lemma_le4_value_of_bytes((n % 0x1_0000_0000) as nat, seq![], seq![]);
    lemma_le8_value_of_bytes(n as nat, seq![], seq![]);
}

/// A compact-size number is read back where it was written, whatever stands
/// before and behind it.
pub proof fn lemma_read_written_compact_size(before: Seq<u8>, n: u64, behind: Seq<u8>)
    ensures
        read_compact_size(before + compact_size(n as nat) + behind, before.len() as int) == Some(
            (n as nat, before.len() as int + compact_size(n as nat).len()),
        ),
        1 <= compact_size(n as nat).len() <= 9,
{
    reveal(compact_size);
    reveal(read_compact_size);
    lemma_compact_size_shape(n);
    let cs = compact_size(n as nat);
    let b = before + cs + behind;
    let pos = before.len() as int;
    assert(b[pos] == cs[0]);
    let head = before + seq![cs[0]];
    if n < 0xFD {
    } else if n <= 0xFFFF {
        lemma_le2_value_of_bytes(n as nat, head, behind);
        assert(b =~= head + le2(n as nat) + behind);
    } else if n <= 0xFFFF_FFFF {
        lemma_le4_value_of_bytes(n as nat, head, behind);
        assert(b =~= head + le4(n as nat) + behind);
    } else {
        lemma_le8_value_of_bytes(n as nat, head, behind);
        assert(b =~= head + le8(n as nat) + behind);
    }
}

/// What is read as a compact-size number is the compact-size form of that
/// number: no number has two forms.
pub proof fn lemma_written_as_read(b: Seq<u8>, pos: int)
    requires
        read_compact_size(b, pos) is Some,
    ensures
        ({
            let (n, next) = read_compact_size(b, pos)->0;
            &&& pos < next <= b.len()
            &&& n <= u64::MAX
            &&& b.subrange(pos, next) == compact_size(n)
        }),
{
    reveal(compact_size);
    reveal(read_compact_size);
    let (n, next) = read_compact_size(b, pos)->0;
    if b[pos] < 0xFD {
        assert(b.subrange(pos, next) =~= compact_size(n));
    } else if b[pos] == 0xFD {
        lemma_bytes_of_le2_value(b, pos + 1);
        assert(b.subrange(pos, next) =~= seq![0xFDu8] + b.subrange(pos + 1, pos + 3));
    } else if b[pos] == 0xFE {
        lemma_bytes_of_le4_value(b, pos + 1);
        assert(b.subrange(pos, next) =~= seq![0xFEu8] + b.subrange(pos + 1, pos + 5));
    } else {
        lemma_bytes_of_le8_value(b, pos + 1);
        assert(b.subrange(pos, next) =~= seq![0xFFu8] + b.subrange(pos + 1, pos + 9));
    }
}

/// Appends the two bytes of a number, low byte first.
pub fn push_le2(out: &mut Vec<u8>, n: u64)
    requires
        n < 0x1_0000,
    ensures
        final(out)@ == old(out)@ + le2(n as nat),
{
    reveal(le2);
    out.push((n % 256) as u8);
    out.push((n / 256 % 256) as u8);
    assert(out@ =~= old(out)@ + le2(n as nat));
}

/// Appends the four bytes of a number, low byte first.
pub fn push_le4(out: &mut Vec<u8>, n: u64)
    requires
        n < 0x1_0000_0000,
    ensures
        final(out)@ == old(out)@ + le4(n as nat),
{
    reveal(le4);
    push_le2(out, n % 0x1_0000);
    push_le2(out, n / 0x1_0000 % 0x1_0000);
    assert(out@ =~= old(out)@ + le4(n as nat));
}

/// Appends the eight bytes of a number, low byte first.
pub fn push_le8(out: &mut Vec<u8>, n: u64)
    ensures
        final(out)@ == old(out)@ + le8(n as nat),
{
    push_le4(out, n % 0x1_0000_0000);
    push_le4(out, n / 0x1_0000_0000 % 0x1_0000_0000);
    assert(out@ =~= old(out)@ + le8(n as nat));
}

/// Appends the compact-size form of a number.
pub fn write_compact_size(out: &mut Vec<u8>, n: u64)
    ensures
        final(out)@ == old(out)@ + compact_size(n as nat),
{
    reveal(compact_size);
    if n < 0xFD {
        out.push(n as u8);
        assert(out@ =~= old(out)@ + seq![n as u8]);
    } else if n <= 0xFFFF {
        out.push(0xFD);
        push_le2(out, n);
        assert(out@ =~= old(out)@ + (seq![0xFDu8] + le2(n as nat)));
    } else if n <= 0xFFFF_FFFF {
        out.push(0xFE);
        push_le4(out, n);
        assert(out@ =~= old(out)@ + (seq![0xFEu8] + le4(n as nat)));
    } else {
        out.push(0xFF);
        push_le8(out, n);
        assert(out@ =~= old(out)@ + (seq![0xFFu8] + le8(n as nat)));
    }
}

/// The number that the two bytes at `pos` stand for.
pub fn read_le2(b: &[u8], pos: usize) -> (n: u64)
    requires
        pos + 2 <= b@.len() <= usize::MAX,
    ensures
        n == le2_value(b@, pos as int),
        n < 0x1_0000,
{
    reveal(le2_value);
    b[pos] as u64 + 0x100 * (b[pos + 1] as u64)
}

/// The number that the four bytes at `pos` stand for.
pub fn read_le4(b: &[u8], pos: usize) -> (n: u64)
    requires
        pos + 4 <= b@.len() <= usize::MAX,
    ensures
        n == le4_value(b@, pos as int),
        n < 0x1_0000_0000,
{
    reveal(le4_value);
    let lo = read_le2(b, pos);
    let hi = read_le2(b, pos + 2);
    lo + 0x1_0000 * hi
}

/// The number that the eight bytes at `pos` stand for.
pub fn read_le8(b: &[u8], pos: usize) -> (n: u64)
    requires
        pos + 8 <= b@.len() <= usize::MAX,
    ensures
        n == le8_value(b@, pos as int),
{
    let lo = read_le4(b, pos);
    let hi = read_le4(b, pos + 4);
    lo + 0x1_0000_0000 * hi
}

/// Reads the compact-size number that stands at `pos`, and gives it with the
/// place behind it.
pub fn read_compact_size_at(b: &[u8], pos: usize) -> (r: Option<(u64, usize)>)
    ensures
        match r {
            Some((n, next)) => read_compact_size(b@, pos as int) == Some((n as nat, next as int)),
            None => read_compact_size(b@, pos as int) is None,
        },
{
    reveal(read_compact_size);
    if pos >= b.len() {
        return None;
    }
    let left = b.len() - pos;
    let first = b[pos];
    if first < 0xFD {
        Some((first as u64, pos + 1))
    } else if first == 0xFD {
        if left < 3 {
            return None;
        }
        let n = read_le2(b, pos + 1);
        if n >= 0xFD {
            Some((n, pos + 3))
        } else {
            None
        }
    } else if first == 0xFE {
        if left < 5 {
            return None;
        }
        let n = read_le4(b, pos + 1);
        if n > 0xFFFF {
            Some((n, pos + 5))
        } else {
            None
        }
    } else {
        if left < 9 {
            return None;
        }
        let n = read_le8(b, pos + 1);
        if n > 0xFFFF_FFFF {
            Some((n, pos + 9))
        } else {
            None
        }
    }
}

} // verus!
