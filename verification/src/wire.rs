//! Byte-level building blocks of the wire schema: little-endian words, runs of
//! zero bytes, and the executable helpers that write and read them.
use vstd::prelude::*;
use vstd::slice::slice_subrange;

verus! {

/// The four bytes of `x`, least significant first.
pub open spec fn le_bytes(x: u32) -> Seq<u8> {
    seq![
        (x & 0xff) as u8,
        ((x >> 8) & 0xff) as u8,
        ((x >> 16) & 0xff) as u8,
        ((x >> 24) & 0xff) as u8,
    ]
}

/// The word whose bytes, least significant first, are `b0 b1 b2 b3`.
pub open spec fn le_word(b0: u8, b1: u8, b2: u8, b3: u8) -> u32 {
    (b0 as u32) | ((b1 as u32) << 8) | ((b2 as u32) << 16) | ((b3 as u32) << 24)
}

/// The little-endian word that starts at offset `at` of `b`.
pub open spec fn word_at(b: Seq<u8>, at: int) -> u32
    recommends
        0 <= at,
        at + 4 <= b.len(),
{
    le_word(b[at], b[at + 1], b[at + 2], b[at + 3])
}

/// `n` zero bytes.
pub open spec fn zeros(n: nat) -> Seq<u8> {
    Seq::new(n, |i: int| 0u8)
}

/// Every byte of `b` is zero.
pub open spec fn all_zero(b: Seq<u8>) -> bool {
    forall|i: int| 0 <= i < b.len() ==> b[i] == 0
}

/// Splitting a word into bytes and joining them again gives the word back.
pub proof fn lemma_word_of_bytes(x: u32)
    ensures
        le_bytes(x).len() == 4,
        word_at(le_bytes(x), 0) == x,
{
    let b0 = (x & 0xff) as u8;
    let b1 = ((x >> 8) & 0xff) as u8;
    let b2 = ((x >> 16) & 0xff) as u8;
    let b3 = ((x >> 24) & 0xff) as u8;
    assert(le_word(b0, b1, b2, b3) == x) by (bit_vector)
        requires
            b0 == (x & 0xff) as u8,
            b1 == ((x >> 8) & 0xff) as u8,
            b2 == ((x >> 16) & 0xff) as u8,
            b3 == ((x >> 24) & 0xff) as u8,
    ;
}

/// Joining four bytes into a word and splitting it again gives the bytes back.
pub proof fn lemma_bytes_of_word(b0: u8, b1: u8, b2: u8, b3: u8)
    ensures
        le_bytes(le_word(b0, b1, b2, b3)) == seq![b0, b1, b2, b3],
{
    let x = le_word(b0, b1, b2, b3);
    assert((x & 0xff) as u8 == b0 && ((x >> 8) & 0xff) as u8 == b1 && ((x >> 16) & 0xff) as u8
        == b2 && ((x >> 24) & 0xff) as u8 == b3) by (bit_vector)
        requires
            x == le_word(b0, b1, b2, b3),
    ;
    assert(le_bytes(x) =~= seq![b0, b1, b2, b3]);
}

/// A word written at the end of `head` is read back at that offset, whatever
/// follows it.
pub proof fn lemma_word_in_place(head: Seq<u8>, x: u32, tail: Seq<u8>)
    ensures
        word_at(head + le_bytes(x) + tail, head.len() as int) == x,
{
    lemma_word_of_bytes(x);
    let all = head + le_bytes(x) + tail;
    let at = head.len() as int;
    assert(all[at] == le_bytes(x)[0]);
    assert(all[at + 1] == le_bytes(x)[1]);
    assert(all[at + 2] == le_bytes(x)[2]);
    assert(all[at + 3] == le_bytes(x)[3]);
}

/// The four bytes at offset `at` of `b` are the bytes of the word read there.
pub proof fn lemma_word_covers(b: Seq<u8>, at: int)
    requires
        0 <= at,
        at + 4 <= b.len(),
    ensures
        le_bytes(word_at(b, at)) == b.subrange(at, at + 4),
{
    lemma_bytes_of_word(b[at], b[at + 1], b[at + 2], b[at + 3]);
    assert(b.subrange(at, at + 4) =~= seq![b[at], b[at + 1], b[at + 2], b[at + 3]]);
}

/// The byte that stands for a flag: 1 for set, 0 for clear.
pub open spec fn flag_byte(flag: bool) -> u8 {
    if flag {
        1
    } else {
        0
    }
}

/// The array of the 28 bytes of `s`.
pub open spec fn array28(s: Seq<u8>) -> [u8; 28]
    recommends
        s.len() == 28,
{
    [
        s[0], s[1], s[2], s[3], s[4], s[5], s[6], s[7], s[8], s[9], s[10], s[11], s[12], s[13],
        s[14], s[15], s[16], s[17], s[18], s[19], s[20], s[21], s[22], s[23], s[24], s[25], s[26],
        s[27],
    ]
}

/// `array28` holds what it was made of, and an array is made of what it holds.
pub proof fn lemma_array28(s: Seq<u8>, a: [u8; 28])
    ensures
        s.len() == 28 ==> array28(s)@ == s,
        array28(a@) == a,
{
    if s.len() == 28 {
        assert(array28(s)@ =~= s);
    }
    assert(array28(a@) =~= a);
}

/// A record that has a fixed image in bytes.
pub trait AsBytes {
    /// The bytes of this record as they travel on the wire.
    spec fn wire(&self) -> Seq<u8>;

    /// Writes this record out.
    fn as_bytes(&self) -> (bytes: Vec<u8>)
        ensures
            bytes@ == self.wire(),
    ;
}

impl AsBytes for Vec<u8> {
    open spec fn wire(&self) -> Seq<u8> {
        self@
    }

    fn as_bytes(&self) -> (bytes: Vec<u8>) {
        self.clone()
    }
}

/// Copies the `N` bytes of `data` that start at offset `at` into an array.
pub fn take<const N: usize>(data: &[u8], at: usize) -> (out: [u8; N])
    requires
        at + N <= data@.len(),
    ensures
        out@ == data@.subrange(at as int, at + N),
{
    let len = data.len();
    let mut out = [0u8; N];
    let mut i: usize = 0;
    while i < N
        invariant
            i <= N,
            at + N <= len,
            len == data@.len(),
            out@.len() == N,
            forall|k: int| 0 <= k < i ==> out@[k] == data@[at + k],
        decreases N - i,
    {
        out[i] = data[at + i];
        i += 1;
    }
    assert(out@ =~= data@.subrange(at as int, at + N));
    out
}

/// Appends the little-endian bytes of `x` to `out`.
pub fn put_word(out: &mut Vec<u8>, x: u32)
    ensures
        final(out)@ == old(out)@ + le_bytes(x),
{
    assert(x & 0xff < 256 && (x >> 8) & 0xff < 256 && (x >> 16) & 0xff < 256 && (x >> 24) & 0xff
        < 256) by (bit_vector);
    out.push((x & 0xff) as u8);
    out.push(((x >> 8) & 0xff) as u8);
    out.push(((x >> 16) & 0xff) as u8);
    out.push(((x >> 24) & 0xff) as u8);
    assert(out@ =~= old(out)@ + le_bytes(x));
}

/// Reads the little-endian word that starts at offset `at` of `data`.
pub fn get_word(data: &[u8], at: usize) -> (x: u32)
    requires
        at + 4 <= data@.len(),
    ensures
        x == word_at(data@, at as int),
{
    (data[at] as u32) | ((data[at + 1] as u32) << 8) | ((data[at + 2] as u32) << 16) | ((data[at
        + 3] as u32) << 24)
}

/// Appends `n` zero bytes to `out`.
pub fn put_zeros(out: &mut Vec<u8>, n: usize)
    ensures
        final(out)@ == old(out)@ + zeros(n as nat),
{
    let mut i: usize = 0;
    while i < n
        invariant
            i <= n,
            out@ == old(out)@ + zeros(i as nat),
        decreases n - i,
    {
        out.push(0);
        i += 1;
        assert(out@ =~= old(out)@ + zeros(i as nat));
    }
}

/// Tells whether the bytes of `data` from `from` up to `to` are all zero.
pub fn is_zero_run(data: &[u8], from: usize, to: usize) -> (zero: bool)
    requires
        from <= to <= data@.len(),
    ensures
        zero == all_zero(data@.subrange(from as int, to as int)),
{
    let mut i: usize = from;
    while i < to
        invariant
            from <= i <= to <= data@.len(),
            all_zero(data@.subrange(from as int, i as int)),
        decreases to - i,
    {
        if data[i] != 0 {
            assert(data@.subrange(from as int, to as int)[i - from] != 0);
            return false;
        }
        i += 1;
        assert forall|k: int| 0 <= k < i - from implies data@.subrange(from as int, i as int)[k]
            == 0 by {
            if k < i - 1 - from {
                assert(data@.subrange(from as int, i - 1)[k] == 0);
            }
        }
    }
    true
}

/// Copies the bytes of `data` from `from` up to `to` into a vector of their own.
pub fn copy_range(data: &[u8], from: usize, to: usize) -> (out: Vec<u8>)
    requires
        from <= to <= data@.len(),
    ensures
        out@ == data@.subrange(from as int, to as int),
{
    let mut out: Vec<u8> = Vec::new();
    out.extend_from_slice(slice_subrange(data, from, to));
    out
}

} // verus!
