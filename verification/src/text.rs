//! Text helpers shared by the lines: building strings, decimal numbers,
//! byte search and big-endian integers.

use vstd::prelude::*;
use vstd::utf8::*;

verus! {

/// Appends one character; calls `String::push`.
#[verifier::external_body]
pub(crate) fn push_char(s: &mut String, c: char)
    ensures
        final(s)@ == old(s)@.push(c),
{
    s.push(c)
}

/// The text that `String::from_utf8_lossy` makes of `b`: its UTF-8
/// decoding, with each invalid sequence replaced by U+FFFD.
pub uninterp spec fn lossy_text(b: Seq<u8>) -> Seq<char>;

/// Decodes bytes as UTF-8, replacing invalid sequences; calls
/// `String::from_utf8_lossy`. The result is named `lossy_text` of the
/// bytes; its documentation also promises that valid UTF-8 comes back
/// unchanged.
#[verifier::external_body]
pub(crate) fn utf8_lossy(b: &[u8]) -> (s: String)
    ensures
        s@ == lossy_text(b@),
        valid_utf8(b@) ==> s@ == decode_utf8(b@),
{
    String::from_utf8_lossy(b).into_owned()
}

/// The character of a decimal digit.
pub open spec fn digit_char(d: int) -> char {
    (48 + d) as char
}

/// Decimal digits of `n`, most significant first, without leading zeros.
pub open spec fn spec_decimal(n: nat) -> Seq<char>
    decreases n,
{
    if n < 10 {
        seq![digit_char(n as int)]
    } else {
        spec_decimal(n / 10).push(digit_char((n % 10) as int))
    }
}

/// Appends the decimal digits of `n` to `s`.
pub fn push_decimal(s: &mut String, n: u64)
    ensures
        final(s)@ == old(s)@ + spec_decimal(n as nat),
    decreases n,
{
    if n >= 10 {
        push_decimal(s, n / 10);
    }
    let d: u8 = (n % 10) as u8;
    let c: char = (48u8 + d) as char;
    push_char(s, c);
    proof {
        if n >= 10 {
            assert(old(s)@ + spec_decimal(n as nat) =~= (old(s)@ + spec_decimal((n / 10) as nat)).push(c));
        } else {
            assert(old(s)@ + spec_decimal(n as nat) =~= old(s)@.push(c));
        }
    }
}

/// The decimal text of `n`.
pub fn decimal(n: u64) -> (r: String)
    ensures
        r@ == spec_decimal(n as nat),
{
    let mut s = String::new();
    push_decimal(&mut s, n);
    assert(s@ =~= spec_decimal(n as nat));
    s
}


/// `n` occurs as a contiguous run of bytes inside `h`.
pub open spec fn seq_contains_sub(h: Seq<u8>, n: Seq<u8>) -> bool {
    exists|i: int| 0 <= i && i + n.len() <= h.len() && #[trigger] h.subrange(i, i + n.len()) == n
}

/// Whether `n` occurs as a contiguous run of bytes inside `h`.
pub fn contains_bytes(h: &[u8], n: &[u8]) -> (r: bool)
    ensures
        r == seq_contains_sub(h@, n@),
{
    if n.len() > h.len() {
        return false;
    }
    let last: usize = h.len() - n.len();
    let mut i: usize = 0;
    loop
        invariant
            last == h@.len() - n@.len(),
            n@.len() <= h@.len(),
            i <= last,
            forall|k: int| 0 <= k < i ==> #[trigger] h@.subrange(k, k + n@.len()) != n@,
        decreases last - i,
    {
        let mut j: usize = 0;
        let mut same = true;
        while j < n.len()
            invariant
                i <= last,
                last == h@.len() - n@.len(),
                n@.len() <= h@.len(),
                j <= n@.len(),
                h@.len() == h.len(),
                same == (forall|t: int| 0 <= t < j ==> h@[i + t] == n@[t]),
            decreases n@.len() - j,
        {
            if h[i + j] != n[j] {
                same = false;
            }
            j = j + 1;
        }
        if same {
            assert(h@.subrange(i as int, i + n@.len()) =~= n@);
            return true;
        }
        assert(h@.subrange(i as int, i + n@.len()) != n@) by {
            let t = choose|t: int| 0 <= t < n@.len() && h@[i + t] != n@[t];
            assert(h@.subrange(i as int, i + n@.len())[t] == h@[i + t]);
        }
        if i == last {
            assert forall|k: int| 0 <= k && k + n@.len() <= h@.len() implies #[trigger] h@.subrange(k, k + n@.len()) != n@ by {
                assert(k <= i);
            }
            return false;
        }
        i = i + 1;
    }
}

/// Index of the first byte `c` at or after `from`, or the length when there is none.
pub open spec fn index_of(s: Seq<u8>, c: u8, from: int) -> int
    decreases s.len() - from,
{
    if from >= s.len() {
        s.len() as int
    } else if s[from] == c {
        from
    } else {
        index_of(s, c, from + 1)
    }
}

pub proof fn lemma_index_of_bounds(s: Seq<u8>, c: u8, from: int)
    requires
        0 <= from,
    ensures
        from <= index_of(s, c, from) || (from > s.len() && index_of(s, c, from) == s.len()),
        index_of(s, c, from) <= s.len(),
        index_of(s, c, from) < s.len() ==> s[index_of(s, c, from)] == c,
        forall|k: int| from <= k < index_of(s, c, from) ==> s[k] != c,
    decreases s.len() - from,
{
    if from < s.len() && s[from] != c {
        lemma_index_of_bounds(s, c, from + 1);
    }
}

/// Finds the first byte `c` at or after `from`.
pub fn find_byte(s: &[u8], c: u8, from: usize) -> (r: usize)
    ensures
        r == index_of(s@, c, from as int),
{
    let mut i = from;
    if i >= s.len() {
        return s.len();
    }
    while i < s.len()
        invariant
            from <= i <= s@.len(),
            index_of(s@, c, from as int) == index_of(s@, c, i as int),
        decreases s@.len() - i,
    {
        if s[i] == c {
            return i;
        }
        i = i + 1;
    }
    i
}

/// The eight bytes of `x`, most significant first.
pub open spec fn be_bytes(x: u64) -> Seq<u8> {
    seq![
        (x >> 56u64) as u8,
        (x >> 48u64) as u8,
        (x >> 40u64) as u8,
        (x >> 32u64) as u8,
        (x >> 24u64) as u8,
        (x >> 16u64) as u8,
        (x >> 8u64) as u8,
        x as u8,
    ]
}

/// The eight bytes are `x` in base 256, most significant first: read back
/// big-endian they give `x`.
pub proof fn lemma_be_bytes_read_back(x: u64)
    ensures
        be_bytes(x).len() == 8,
        x == be_bytes(x)[0] * 0x100_0000_0000_0000int + be_bytes(x)[1] * 0x1_0000_0000_0000int
            + be_bytes(x)[2] * 0x100_0000_0000int + be_bytes(x)[3] * 0x1_0000_0000int
            + be_bytes(x)[4] * 0x100_0000int + be_bytes(x)[5] * 0x1_0000int + be_bytes(x)[6]
            * 0x100int + be_bytes(x)[7],
{
    let b = be_bytes(x);
    assert(b[0] == (x >> 56u64) as u8);
    assert(b[6] == (x >> 8u64) as u8);
    assert(x == ((x >> 56u64) as u8) * 0x100_0000_0000_0000int + ((x >> 48u64) as u8)
        * 0x1_0000_0000_0000int + ((x >> 40u64) as u8) * 0x100_0000_0000int + ((x >> 32u64) as u8)
        * 0x1_0000_0000int + ((x >> 24u64) as u8) * 0x100_0000int + ((x >> 16u64) as u8)
        * 0x1_0000int + ((x >> 8u64) as u8) * 0x100int + (x as u8)) by (bit_vector);
}

/// Appends the eight big-endian bytes of `x`.
pub fn push_be_bytes(v: &mut Vec<u8>, x: u64)
    ensures
        final(v)@ == old(v)@ + be_bytes(x),
{
    v.push((x >> 56u64) as u8);
    v.push((x >> 48u64) as u8);
    v.push((x >> 40u64) as u8);
    v.push((x >> 32u64) as u8);
    v.push((x >> 24u64) as u8);
    v.push((x >> 16u64) as u8);
    v.push((x >> 8u64) as u8);
    v.push(x as u8);
    assert(final(v)@ =~= old(v)@ + be_bytes(x));
}

} // verus!
