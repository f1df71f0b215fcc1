//! Big-endian numbers in byte sequences.
use vstd::prelude::*;

verus! {

/// The `width` bytes of `n`, most significant first.
pub open spec fn be_of(n: nat, width: nat) -> Seq<u8>
    decreases width,
{
    if width == 0 {
        Seq::empty()
    } else {
        be_of(n / 256, (width - 1) as nat).push((n % 256) as u8)
    }
}

/// The number that these bytes denote, most significant first.
pub open spec fn be_value(s: Seq<u8>) -> nat
    decreases s.len(),
{
    if s.len() == 0 {
        0
    } else {
        be_value(s.drop_last()) * 256 + s.last() as nat
    }
}

/// 256 to the power of `width`.
pub open spec fn range_of(width: nat) -> nat
    decreases width,
{
    if width == 0 {
        1
    } else {
        range_of((width - 1) as nat) * 256
    }
}

/// A notation has as many bytes as its width says.
pub proof fn lemma_be_length(n: nat, width: nat)
    ensures
        be_of(n, width).len() == width,
    decreases width,
{
    if width > 0 {
        lemma_be_length(n / 256, (width - 1) as nat);
    }
}

/// A number below 256^width is read back from its notation.
pub proof fn lemma_be_round_trip(n: nat, width: nat)
    requires
        n < range_of(width),
    ensures
        be_value(be_of(n, width)) == n,
    decreases width,
{
    if width > 0 {
        assert(n / 256 < range_of((width - 1) as nat)) by (nonlinear_arith)
            requires
                n < range_of((width - 1) as nat) * 256,
        ;
        lemma_be_round_trip(n / 256, (width - 1) as nat);
        let rest = be_of(n / 256, (width - 1) as nat);
        assert(be_of(n, width).drop_last() =~= rest);
    }
}

/// What the bytes denote lies below 256^length.
pub proof fn lemma_be_value_bound(s: Seq<u8>)
    ensures
        be_value(s) < range_of(s.len()),
    decreases s.len(),
{
    if s.len() > 0 {
        lemma_be_value_bound(s.drop_last());
    }
}

/// Bytes are the notation of the number that they denote.
pub proof fn lemma_be_inverse(s: Seq<u8>)
    ensures
        be_of(be_value(s), s.len()) == s,
    decreases s.len(),
{
    if s.len() > 0 {
        let front = s.drop_last();
        let n = be_value(s);
        assert(n / 256 == be_value(front) && n % 256 == s.last() as nat);
        lemma_be_inverse(front);
        assert(front.push(s.last()) =~= s);
    } else {
        assert(be_of(be_value(s), 0) =~= s);
    }
}

/// Appends the `width` bytes of `n`.
pub fn push_be(out: &mut Vec<u8>, n: u128, width: usize)
    ensures
        final(out)@ == old(out)@ + be_of(n as nat, width as nat),
    decreases width,
{
    if width > 0 {
        push_be(out, n / 256, width - 1);
        out.push((n % 256) as u8);
    }
    proof {
        assert(out@ =~= old(out)@ + be_of(n as nat, width as nat));
    }
}

/// Reads the number in the bytes from `from` up to `to`.
pub fn read_be(s: &[u8], from: usize, to: usize) -> (n: u64)
    requires
        from <= to <= s@.len(),
        to - from <= 8,
    ensures
        n == be_value(s@.subrange(from as int, to as int)),
{
    let mut n: u64 = 0;
    let mut i: usize = from;
    while i < to
        invariant
            from <= i <= to <= s@.len(),
            to - from <= 8,
            n == be_value(s@.subrange(from as int, i as int)),
        decreases to - i,
    {
        proof {
            let part = s@.subrange(from as int, i as int);
            lemma_be_value_bound(part);
            reveal_with_fuel(range_of, 9);
            assert(s@.subrange(from as int, i + 1).drop_last() =~= part);
        }
        n = n * 256 + s[i] as u64;
        i = i + 1;
    }
    n
}

/// A copy of the bytes from `from` up to `to`.
pub fn copy_range(s: &[u8], from: usize, to: usize) -> (r: Vec<u8>)
    requires
        from <= to <= s@.len(),
    ensures
        r@ == s@.subrange(from as int, to as int),
{
    let mut out: Vec<u8> = Vec::new();
    let mut i: usize = from;
    while i < to
        invariant
            from <= i <= to <= s@.len(),
            out@ == s@.subrange(from as int, i as int),
        decreases to - i,
    {
        out.push(s[i]);
        i = i + 1;
    }
    out
}

/// Appends a copy of `tail`.
pub fn append_copy(out: &mut Vec<u8>, tail: &[u8])
    ensures
        final(out)@ == old(out)@ + tail@,
{
    let mut i: usize = 0;
    while i < tail.len()
        invariant
            i <= tail@.len(),
            out@ == old(out)@ + tail@.take(i as int),
        decreases tail@.len() - i,
    {
        out.push(tail[i]);
        i = i + 1;
    }
    proof {
        assert(tail@.take(i as int) =~= tail@);
    }
}

/// Whether two byte sequences are equal.
pub fn equal(a: &[u8], b: &[u8]) -> (r: bool)
    ensures
        r == (a@ == b@),
{
    if a.len() != b.len() {
        return false;
    }
    let mut i: usize = 0;
    while i < a.len()
        invariant
            i <= a@.len(),
            a@.len() == b@.len(),
            a@.take(i as int) == b@.take(i as int),
        decreases a@.len() - i,
    {
        if a[i] != b[i] {
            return false;
        }
        proof {
            assert(a@.take(i + 1) =~= a@.take(i as int).push(a@[i as int]));
            assert(b@.take(i + 1) =~= b@.take(i as int).push(b@[i as int]));
        }
        i = i + 1;
    }
    proof {
        assert(a@.take(i as int) =~= a@);
        assert(b@.take(i as int) =~= b@);
    }
    true
}

/// A number is written with its most significant byte first: the last byte is what is left of it
/// modulo 256, and what stands before is the rest of it.
pub proof fn law_numbers_start_with_the_largest_part(
    out: &mut Vec<u8>,
    shorter: &mut Vec<u8>,
    n: u128,
    width: usize,
)
    requires
        width > 0,
        old(out)@ == old(shorter)@,
        call_ensures(push_be, (out, n, width), ()),
        call_ensures(push_be, (shorter, n / 256, (width - 1) as usize), ()),
    ensures
        final(out)@.last() == n % 256,
        final(out)@.drop_last() == final(shorter)@,
        final(out)@.len() == old(out)@.len() + width,
{
    lemma_be_length(n as nat, width as nat);
    assert(final(out)@.drop_last() =~= final(shorter)@);
}

/// A number that was written is read back.
pub proof fn law_written_number_is_read(
    out: &mut Vec<u8>,
    n: u64,
    data: &[u8],
    r: u64,
)
    requires
        old(out)@.len() == 0,
        call_ensures(push_be, (out, n as u128, 8usize), ()),
        data@ == final(out)@,
        call_ensures(read_be, (data, 0usize, 8usize), r),
    ensures
        r == n,
{
    lemma_be_length(n as nat, 8);
    reveal_with_fuel(range_of, 9);
    lemma_be_round_trip(n as nat, 8);
    assert(data@.subrange(0, 8) =~= be_of(n as nat, 8));
}

} // verus!
