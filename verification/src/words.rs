//! Machine words as little-endian bytes.

use vstd::prelude::*;

verus! {

/// The size of a word in user memory.
pub const WORD_SIZE: usize = 8;

/// The eight bytes of a word, lowest first.
pub open spec fn word_bytes(x: u64) -> Seq<u8> {
    seq![
        (x % 256) as u8,
        (x / 0x100 % 256) as u8,
        (x / 0x1_0000 % 256) as u8,
        (x / 0x100_0000 % 256) as u8,
        (x / 0x1_0000_0000 % 256) as u8,
        (x / 0x100_0000_0000 % 256) as u8,
        (x / 0x1_0000_0000_0000 % 256) as u8,
        (x / 0x100_0000_0000_0000 % 256) as u8,
    ]
}

/// The number that eight bytes denote.
pub open spec fn word_value(b: Seq<u8>) -> int {
    b[0] + 0x100 * b[1] + 0x1_0000 * b[2] + 0x100_0000 * b[3] + 0x1_0000_0000 * b[4]
        + 0x100_0000_0000 * b[5] + 0x1_0000_0000_0000 * b[6] + 0x100_0000_0000_0000 * b[7]
}

/// A word is what its bytes denote.
pub proof fn law_word_round_trip(x: u64)
    ensures
        word_bytes(x).len() == WORD_SIZE,
        word_value(word_bytes(x)) == x,
{
    let v = x as int;
    let q1 = v / 0x100;
    let q2 = q1 / 0x100;
    let q3 = q2 / 0x100;
    let q4 = q3 / 0x100;
    let q5 = q4 / 0x100;
    let q6 = q5 / 0x100;
    let q7 = q6 / 0x100;
    assert(q2 == v / 0x1_0000);
    assert(q3 == v / 0x100_0000) by {
        assert(q3 == (v / 0x1_0000) / 0x100);
    }
    assert(q4 == v / 0x1_0000_0000) by {
        assert(q4 == (v / 0x100_0000) / 0x100);
    }
    assert(q5 == v / 0x100_0000_0000) by {
        assert(q5 == (v / 0x1_0000_0000) / 0x100);
    }
    assert(q6 == v / 0x1_0000_0000_0000) by {
        assert(q6 == (v / 0x100_0000_0000) / 0x100);
    }
    assert(q7 == v / 0x100_0000_0000_0000) by {
        assert(q7 == (v / 0x1_0000_0000_0000) / 0x100);
    }
    let b = word_bytes(x);
    assert(b[0] == v % 0x100 && b[1] == q1 % 0x100 && b[2] == q2 % 0x100 && b[3] == q3 % 0x100);
    assert(b[4] == q4 % 0x100 && b[5] == q5 % 0x100 && b[6] == q6 % 0x100 && b[7] == q7 % 0x100);
    assert(q7 < 0x100);
    assert(v == 0x100 * q1 + v % 0x100);
    assert(q1 == 0x100 * q2 + q1 % 0x100);
    assert(q2 == 0x100 * q3 + q2 % 0x100);
    assert(q3 == 0x100 * q4 + q3 % 0x100);
    assert(q4 == 0x100 * q5 + q4 % 0x100);
    assert(q5 == 0x100 * q6 + q5 % 0x100);
    assert(q6 == 0x100 * q7 + q6 % 0x100);
}

/// The words of a sequence, one after the other.
pub open spec fn words_bytes(words: Seq<u64>) -> Seq<u8>
    decreases words.len(),
{
    if words.len() == 0 {
        Seq::empty()
    } else {
        words_bytes(words.drop_last()) + word_bytes(words.last())
    }
}

/// The length of a sequence of words in memory.
pub proof fn lemma_words_len(words: Seq<u64>)
    ensures
        words_bytes(words).len() == 8 * words.len(),
    decreases words.len(),
{
    if words.len() > 0 {
        lemma_words_len(words.drop_last());
    }
}

/// Word `i` of a sequence of words stands at eight times `i`.
pub proof fn lemma_word_at(words: Seq<u64>, i: int)
    requires
        0 <= i < words.len(),
    ensures
        words_bytes(words).len() == 8 * words.len(),
        words_bytes(words).subrange(8 * i, 8 * i + 8) == word_bytes(words[i]),
    decreases words.len(),
{
    lemma_words_len(words);
    lemma_words_len(words.drop_last());
    let all = words_bytes(words);
    if i == words.len() - 1 {
        assert(all.subrange(8 * i, 8 * i + 8) =~= word_bytes(words[i]));
    } else {
        lemma_word_at(words.drop_last(), i);
        assert(all.subrange(8 * i, 8 * i + 8) =~= words_bytes(words.drop_last()).subrange(
            8 * i,
            8 * i + 8,
        ));
    }
}

/// Appends the bytes of `x` to `out`.
pub fn push_word(out: &mut Vec<u8>, x: u64)
    ensures
        final(out)@ == old(out)@ + word_bytes(x),
{
    let ghost before = out@;
    out.push((x % 256) as u8);
    out.push((x / 0x100 % 256) as u8);
    out.push((x / 0x1_0000 % 256) as u8);
    out.push((x / 0x100_0000 % 256) as u8);
    out.push((x / 0x1_0000_0000 % 256) as u8);
    out.push((x / 0x100_0000_0000 % 256) as u8);
    out.push((x / 0x1_0000_0000_0000 % 256) as u8);
    out.push((x / 0x100_0000_0000_0000 % 256) as u8);
    assert(out@ =~= before + word_bytes(x));
}

/// The word at `at` in `data`.
pub fn read_word(data: &[u8], at: usize) -> (x: u64)
    requires
        at + 8 <= data@.len(),
    ensures
        x == word_value(data@.subrange(at as int, at + 8)),
{
    let ghost b = data@.subrange(at as int, at + 8);
    assert(forall|j: int| 0 <= j < 8 ==> b[j] == data@[at + j]);
    assert(data@.len() <= usize::MAX) by {
        let n: nat = data@.len();
        assert(data.len() == n);
    }
    data[at] as u64 + 0x100 * (data[at + 1] as u64) + 0x1_0000 * (data[at + 2] as u64) + 0x100_0000
        * (data[at + 3] as u64) + 0x1_0000_0000 * (data[at + 4] as u64) + 0x100_0000_0000 * (data[at
        + 5] as u64) + 0x1_0000_0000_0000 * (data[at + 6] as u64) + 0x100_0000_0000_0000 * (data[at
        + 7] as u64)
}

/// Eight bytes are those of the word that they denote.
pub proof fn law_word_of_bytes(b: Seq<u8>)
    requires
        b.len() == 8,
    ensures
        0 <= word_value(b) <= u64::MAX,
        word_bytes(word_value(b) as u64) == b,
{
    let v = word_value(b);
    let q7 = b[7] as int;
    let q6 = b[6] + 0x100 * q7;
    let q5 = b[5] + 0x100 * q6;
    let q4 = b[4] + 0x100 * q5;
    let q3 = b[3] + 0x100 * q4;
    let q2 = b[2] + 0x100 * q3;
    let q1 = b[1] + 0x100 * q2;
    assert(v == b[0] + 0x100 * q1);
    assert(q1 == v / 0x100);
    assert(q2 == v / 0x1_0000) by {
        assert(q2 == q1 / 0x100);
    }
    assert(q3 == v / 0x100_0000) by {
        assert(q3 == q2 / 0x100);
        assert(q3 == (v / 0x1_0000) / 0x100);
    }
    assert(q4 == v / 0x1_0000_0000) by {
        assert(q4 == q3 / 0x100);
        assert(q4 == (v / 0x100_0000) / 0x100);
    }
    assert(q5 == v / 0x100_0000_0000) by {
        assert(q5 == q4 / 0x100);
        assert(q5 == (v / 0x1_0000_0000) / 0x100);
    }
    assert(q6 == v / 0x1_0000_0000_0000) by {
        assert(q6 == q5 / 0x100);
        assert(q6 == (v / 0x100_0000_0000) / 0x100);
    }
    assert(q7 == v / 0x100_0000_0000_0000) by {
        assert(q7 == q6 / 0x100);
        assert(q7 == (v / 0x1_0000_0000_0000) / 0x100);
    }
    let w = word_bytes(v as u64);
    assert(w[0] == b[0] && w[1] == b[1] && w[2] == b[2] && w[3] == b[3]);
    assert(w[4] == b[4] && w[5] == b[5] && w[6] == b[6] && w[7] == b[7]);
    assert(w =~= b);
}

/// Bytes at an address that is a multiple of the word size, on machines that
/// store words with the lowest byte first.
#[derive(Debug)]
pub struct AlignedBytes {
    /// The bytes as words, the last one filled with zeros.
    pub words: Vec<u64>,
    /// The number of bytes.
    pub len: usize,
}

impl View for AlignedBytes {
    type V = Seq<u8>;

    open spec fn view(&self) -> Seq<u8> {
        words_bytes(self.words@).take(self.len as int)
    }
}

impl AlignedBytes {
    /// The words hold all the bytes.
    pub open spec fn wf(&self) -> bool {
        self.len <= 8 * self.words@.len()
    }

    /// A copy of `bytes`.
    pub fn new(bytes: &[u8]) -> (r: AlignedBytes)
        ensures
            r.wf(),
            r@ == bytes@,
    {
        let len: usize = bytes.len();
        let mut words: Vec<u64> = Vec::new();
        let mut at: usize = 0;
        assert(words_bytes(words@).take(0) =~= bytes@.take(0));
        while len - at >= 8
            invariant
                len == bytes@.len(),
                at <= len,
                at == 8 * words@.len(),
                words_bytes(words@) == bytes@.take(at as int),
            decreases len - at,
        {
            let ghost part = bytes@.subrange(at as int, at + 8);
            let ghost so_far = words@;
            words.push(read_word(bytes, at));
            proof {
                law_word_of_bytes(part);
                assert(words@.drop_last() =~= so_far);
                assert(words_bytes(words@) =~= bytes@.take(at + 8));
            }
            at = at + 8;
        }
        if at < len {
            let mut last: Vec<u8> = Vec::new();
            let ghost so_far = words@;
            while last.len() < 8
                invariant
                    len == bytes@.len(),
                    at < len < at + 8,
                    last@.len() <= 8,
                    forall|k: int|
                        0 <= k < last@.len() && at + k < len ==> last@[k] == bytes@[at + k],
                decreases 8 - last@.len(),
            {
                let n: usize = last.len();
                if n < len - at {
                    last.push(bytes[at + n]);
                } else {
                    last.push(0u8);
                }
            }
            words.push(read_word(last.as_slice(), 0));
            proof {
                law_word_of_bytes(last@);
                assert(last@.subrange(0, 8) =~= last@);
                assert(words@.drop_last() =~= so_far);
                assert(words_bytes(words@) =~= bytes@.take(at as int) + last@);
                assert(words_bytes(words@).take(len as int) =~= bytes@);
            }
        } else {
            assert(words_bytes(words@).take(len as int) =~= bytes@);
        }
        AlignedBytes { words, len }
    }
}

/// The four bytes of a half word, lowest first.
pub open spec fn half_bytes(x: u32) -> Seq<u8> {
    seq![
        (x % 256) as u8,
        (x / 0x100 % 256) as u8,
        (x / 0x1_0000 % 256) as u8,
        (x / 0x100_0000 % 256) as u8,
    ]
}

/// The number that four bytes denote.
pub open spec fn half_value(b: Seq<u8>) -> int {
    b[0] + 0x100 * b[1] + 0x1_0000 * b[2] + 0x100_0000 * b[3]
}

/// The number that the `n` bytes at `at` denote, lowest first.
pub open spec fn number_at(b: Seq<u8>, at: int, n: nat) -> int
    decreases n,
{
    if n == 0 {
        0
    } else {
        b[at] + 0x100 * number_at(b, at + 1, (n - 1) as nat)
    }
}

/// The number that eight bytes denote is that of its digits, lowest first.
pub proof fn law_word_is_a_number(b: Seq<u8>)
    requires
        b.len() == 8,
    ensures
        word_value(b) == number_at(b, 0, 8),
{
    reveal_with_fuel(number_at, 9);
}

/// The number that four bytes denote is that of its digits, lowest first.
pub proof fn law_half_is_a_number(b: Seq<u8>)
    requires
        b.len() == 4,
    ensures
        half_value(b) == number_at(b, 0, 4),
{
    reveal_with_fuel(number_at, 5);
}

/// A half word is what its bytes denote.
pub proof fn law_half_round_trip(x: u32)
    ensures
        half_bytes(x).len() == 4,
        half_value(half_bytes(x)) == x,
{
    let v = x as int;
    let q1 = v / 0x100;
    let q2 = q1 / 0x100;
    let q3 = q2 / 0x100;
    assert(q2 == v / 0x1_0000);
    assert(q3 == v / 0x100_0000) by {
        assert(q3 == (v / 0x1_0000) / 0x100);
    }
    let b = half_bytes(x);
    assert(b[0] == v % 0x100 && b[1] == q1 % 0x100 && b[2] == q2 % 0x100 && b[3] == q3 % 0x100);
    assert(q3 < 0x100);
    assert(v == 0x100 * q1 + v % 0x100);
    assert(q1 == 0x100 * q2 + q1 % 0x100);
    assert(q2 == 0x100 * q3 + q2 % 0x100);
}

/// The bytes of `x`.
pub fn half_to_bytes(x: u32) -> (r: Vec<u8>)
    ensures
        r@ == half_bytes(x),
{
    let mut out: Vec<u8> = Vec::new();
    out.push((x % 256) as u8);
    out.push((x / 0x100 % 256) as u8);
    out.push((x / 0x1_0000 % 256) as u8);
    out.push((x / 0x100_0000 % 256) as u8);
    assert(out@ =~= half_bytes(x));
    out
}

/// A number within a part of the bytes is the same number within the whole.
pub proof fn lemma_number_in_part(b: Seq<u8>, from: int, to: int, at: int, n: nat)
    requires
        0 <= from,
        0 <= at,
        from + at + n <= to <= b.len(),
    ensures
        number_at(b.subrange(from, to), at, n) == number_at(b, from + at, n),
    decreases n,
{
    if n > 0 {
        lemma_number_in_part(b, from, to, at + 1, (n - 1) as nat);
    }
}

/// A word that was pushed is read back from the place where it was pushed, and
/// what was there before it stays.
pub proof fn law_pushed_word_is_read_back(out: &mut Vec<u8>, x: u64)
    requires
        call_ensures(push_word, (out, x), ()),
    ensures
        final(out)@.len() == old(out)@.len() + 8,
        final(out)@.take(old(out)@.len() as int) == old(out)@,
        number_at(final(out)@, old(out)@.len() as int, 8) == x,
{
    let n = old(out)@.len() as int;
    law_word_round_trip(x);
    law_word_is_a_number(word_bytes(x));
    assert(final(out)@.take(n) =~= old(out)@);
    assert(final(out)@.subrange(n, n + 8) =~= word_bytes(x));
    lemma_number_in_part(final(out)@, n, n + 8, 0, 8);
}

/// A word that is read is the number that stands there, lowest byte first.
pub proof fn law_word_is_read(data: &[u8], at: usize, x: u64)
    requires
        at + 8 <= data@.len(),
        call_ensures(read_word, (data, at), x),
    ensures
        x == number_at(data@, at as int, 8),
{
    law_word_is_a_number(data@.subrange(at as int, at + 8));
    lemma_number_in_part(data@, at as int, at + 8, 0, 8);
}

/// The bytes of a half word denote it, lowest byte first.
pub proof fn law_half_is_written(x: u32, r: Vec<u8>)
    requires
        call_ensures(half_to_bytes, (x,), r),
    ensures
        r@.len() == 4,
        number_at(r@, 0, 4) == x,
{
    law_half_round_trip(x);
    law_half_is_a_number(r@);
}

/// Bytes that were copied to words are the numbers that the words have: byte `i`
/// is byte `i % 8`, lowest first, of word `i / 8`.
pub proof fn law_aligned_bytes_are_those_copied(bytes: &[u8], r: AlignedBytes)
    requires
        call_ensures(AlignedBytes::new, (bytes,), r),
    ensures
        r.len == bytes@.len(),
        8 * r.words@.len() >= bytes@.len(),
        forall|i: int|
            #![trigger r.words@[i]]
            0 <= i && 8 * i + 8 <= bytes@.len() ==> r.words@[i] == number_at(bytes@, 8 * i, 8),
{
    lemma_words_len(r.words@);
    assert(r@.len() == r.len);
    assert forall|i: int|
        #![trigger r.words@[i]]
        0 <= i && 8 * i + 8 <= bytes@.len() implies r.words@[i] == number_at(bytes@, 8 * i, 8) by {
        let all = words_bytes(r.words@);
        lemma_word_at(r.words@, i);
        assert(bytes@.subrange(8 * i, 8 * i + 8) =~= all.subrange(8 * i, 8 * i + 8));
        law_word_round_trip(r.words@[i]);
        law_word_is_a_number(bytes@.subrange(8 * i, 8 * i + 8));
        lemma_number_in_part(bytes@, 8 * i, 8 * i + 8, 0, 8);
    }
}

/// A number of `n` bytes is less than what `n` bytes can tell apart.
pub proof fn lemma_number_bound(b: Seq<u8>, at: int)
    ensures
        0 <= number_at(b, at, 2) < 0x1_0000,
        0 <= number_at(b, at, 4) < 0x1_0000_0000,
        0 <= number_at(b, at, 8) < 0x1_0000_0000_0000_0000,
{
    reveal_with_fuel(number_at, 9);
}

} // verus!
