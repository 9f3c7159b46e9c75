//! Byte buffers built word by word, and the Keccak-256 digests that commit
//! to them.
use crate::field::Word;
use vstd::prelude::*;

verus! {

/// The Keccak-256 digest of `b`.
pub uninterp spec fn keccak_of(b: Seq<u8>) -> Seq<u8>;

/// Relies on ethers-core's `utils::keccak256`: the 32-byte Keccak-256
/// digest of the bytes.
#[verifier::external_body]
pub(crate) fn keccak256(b: &Vec<u8>) -> (r: Word)
    ensures
        r@ == keccak_of(b@),
{
    ethers_core::utils::keccak256(b)
}

/// The concatenation of a sequence of byte strings, in order.
pub open spec fn flat(s: Seq<Seq<u8>>) -> Seq<u8>
    decreases s.len(),
{
    if s.len() == 0 {
        Seq::empty()
    } else {
        flat(s.drop_last()) + s.last()
    }
}

/// Whether every string of `s` is `k` bytes long.
pub open spec fn all_len(s: Seq<Seq<u8>>, k: nat) -> bool {
    forall|i: int| 0 <= i < s.len() ==> #[trigger] s[i].len() == k
}

/// The views of a sequence of words.
pub open spec fn word_views(s: Seq<Word>) -> Seq<Seq<u8>> {
    s.map_values(|w: Word| w@)
}

/// The concatenation of `a + b` is that of `a` followed by that of `b`.
pub proof fn lemma_flat_append(a: Seq<Seq<u8>>, b: Seq<Seq<u8>>)
    ensures
        flat(a + b) == flat(a) + flat(b),
    decreases b.len(),
{
    if b.len() == 0 {
        assert(a + b =~= a);
        assert(flat(a) + flat(b) =~= flat(a));
    } else {
        assert((a + b).drop_last() =~= a + b.drop_last());
        assert((a + b).last() == b.last());
        lemma_flat_append(a, b.drop_last());
        assert(flat(a) + flat(b.drop_last()) + b.last() =~= flat(a) + (flat(b.drop_last())
            + b.last()));
    }
}

/// Concatenating one more string appends it.
pub proof fn lemma_flat_push(s: Seq<Seq<u8>>, x: Seq<u8>)
    ensures
        flat(s.push(x)) == flat(s) + x,
{
    assert(s.push(x).drop_last() =~= s);
}

/// In a concatenation of `k`-byte strings, byte `j` of string `i` stands at
/// `i * k + j`.
pub proof fn lemma_flat_index(s: Seq<Seq<u8>>, k: nat, i: int, j: int)
    requires
        all_len(s, k),
        0 <= i < s.len(),
        0 <= j < k,
    ensures
        flat(s).len() == s.len() * k,
        flat(s)[i * k + j] == s[i][j],
    decreases s.len(),
{
    lemma_flat_len(s, k);
    let n = s.len() - 1;
    assert(all_len(s.drop_last(), k)) by {
        assert forall|m: int| 0 <= m < s.drop_last().len() implies #[trigger] s.drop_last()[m].len()
            == k by {
            assert(s.drop_last()[m] == s[m]);
        }
    }
    lemma_flat_len(s.drop_last(), k);
    if i < n {
        lemma_flat_index(s.drop_last(), k, i, j);
        assert(i * k + j < n * k) by (nonlinear_arith)
            requires
                i < n,
                j < k,
        ;
        assert(s.drop_last()[i] == s[i]);
    } else {
        assert(s.last() == s[i]);
    }
}

/// A concatenation of `k`-byte strings is `k` times as long as their count.
pub proof fn lemma_flat_len(s: Seq<Seq<u8>>, k: nat)
    requires
        all_len(s, k),
    ensures
        flat(s).len() == s.len() * k,
    decreases s.len(),
{
    if s.len() > 0 {
        assert(all_len(s.drop_last(), k)) by {
            assert forall|m: int| 0 <= m < s.drop_last().len() implies #[trigger] s.drop_last()[m].len()
                == k by {
                assert(s.drop_last()[m] == s[m]);
            }
        }
        lemma_flat_len(s.drop_last(), k);
        assert(s.last().len() == k);
        assert((s.len() - 1) * k + k == s.len() * k) by (nonlinear_arith);
    }
}

/// Two sequences of `k`-byte strings of one length with the same
/// concatenation are equal.
pub proof fn lemma_flat_injective(a: Seq<Seq<u8>>, b: Seq<Seq<u8>>, k: nat)
    requires
        all_len(a, k),
        all_len(b, k),
        a.len() == b.len(),
        flat(a) == flat(b),
    ensures
        a == b,
{
    assert forall|i: int| 0 <= i < a.len() implies a[i] == b[i] by {
        assert forall|j: int| 0 <= j < k implies a[i][j] == b[i][j] by {
            lemma_flat_index(a, k, i, j);
            lemma_flat_index(b, k, i, j);
        }
        assert(a[i] =~= b[i]);
    }
    assert(a =~= b);
}

/// Word views are 32 bytes each.
pub proof fn lemma_word_views_len(s: Seq<Word>)
    ensures
        all_len(word_views(s), 32),
        word_views(s).len() == s.len(),
{
    assert forall|i: int| 0 <= i < word_views(s).len() implies #[trigger] word_views(s)[i].len()
        == 32 by {
        assert(word_views(s)[i] == s[i]@);
    }
}

/// Appends the 32 bytes of a word to a buffer.
pub fn push_word(buf: &mut Vec<u8>, w: &Word)
    ensures
        final(buf)@ == old(buf)@ + w@,
{
    let mut i: usize = 0;
    let ghost start = buf@;
    while i < 32
        invariant
            0 <= i <= 32,
            w@.len() == 32,
            buf@ == start + w@.subrange(0, i as int),
        decreases 32 - i,
    {
        buf.push(w[i]);
        proof {
            assert(start + w@.subrange(0, i as int + 1) =~= (start + w@.subrange(0, i as int)).push(
                w@[i as int],
            ));
        }
        i = i + 1;
    }
    proof {
        assert(w@.subrange(0, 32) =~= w@);
    }
}

/// The bytes of a sequence of words, in order.
pub fn words_to_bytes(ws: &[Word]) -> (r: Vec<u8>)
    ensures
        r@ == flat(word_views(ws@)),
{
    let mut out: Vec<u8> = Vec::new();
    let mut i: usize = 0;
    while i < ws.len()
        invariant
            0 <= i <= ws@.len(),
            out@ == flat(word_views(ws@.subrange(0, i as int))),
        decreases ws.len() - i,
    {
        push_word(&mut out, &ws[i]);
        proof {
            let next = word_views(ws@.subrange(0, i as int + 1));
            assert(next.drop_last() =~= word_views(ws@.subrange(0, i as int)));
            assert(next.last() == ws@[i as int]@);
        }
        i = i + 1;
    }
    proof {
        assert(ws@.subrange(0, ws@.len() as int) =~= ws@);
    }
    out
}

/// Whether two byte buffers are equal.
pub fn bytes_equal(a: &Vec<u8>, b: &Vec<u8>) -> (r: bool)
    ensures
        r == (a@ == b@),
{
    if a.len() != b.len() {
        return false;
    }
    let mut i: usize = 0;
    while i < a.len()
        invariant
            0 <= i <= a@.len(),
            a@.len() == b@.len(),
            forall|k: int| 0 <= k < i ==> a@[k] == b@[k],
        decreases a.len() - i,
    {
        if a[i] != b[i] {
            return false;
        }
        i = i + 1;
    }
    proof {
        assert(a@ =~= b@);
    }
    true
}

/// Appends bytes to a buffer.
pub fn append_bytes(buf: &mut Vec<u8>, b: &Vec<u8>)
    ensures
        final(buf)@ == old(buf)@ + b@,
{
    let ghost start = buf@;
    let mut i: usize = 0;
    while i < b.len()
        invariant
            0 <= i <= b@.len(),
            buf@ == start + b@.subrange(0, i as int),
        decreases b.len() - i,
    {
        buf.push(b[i]);
        proof {
            assert(start + b@.subrange(0, i as int + 1) =~= (start + b@.subrange(0, i as int)).push(
                b@[i as int],
            ));
        }
        i = i + 1;
    }
    proof {
        assert(b@.subrange(0, b@.len() as int) =~= b@);
    }
}

/// The preimage of the public-input hash: the data hash followed by the
/// bytes of the claimed result.
pub fn pi_preimage(data_hash: &Word, result: &Vec<u8>) -> (r: Vec<u8>)
    ensures
        r@ == data_hash@ + result@,
{
    let mut out: Vec<u8> = Vec::new();
    push_word(&mut out, data_hash);
    append_bytes(&mut out, result);
    out
}

/// The public-input hash of serialized inputs and result bytes: the digest
/// of the inputs' digest followed by the result.
pub open spec fn public_input_hash(inputs: Seq<u8>, result: Seq<u8>) -> Seq<u8> {
    keccak_of(keccak_of(inputs) + result)
}

/// Hashes serialized inputs, then hashes that digest followed by the result.
pub fn commit(inputs: &Vec<u8>, result: &Vec<u8>) -> (r: Word)
    ensures
        r@ == public_input_hash(inputs@, result@),
        r@.len() == 32,
{
    let data_hash = keccak256(inputs);
    let pre = pi_preimage(&data_hash, result);
    keccak256(&pre)
}

} // verus!
