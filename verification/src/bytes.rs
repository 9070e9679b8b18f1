//! Byte strings: the search for a zero byte, and appending to a buffer.
use vstd::prelude::*;

verus! {

/// No byte of `s` is zero.
pub open spec fn null_free(s: Seq<u8>) -> bool {
    forall|i: int| 0 <= i < s.len() ==> s[i] != 0
}

/// `p` is the index of the first zero byte of `s`.
pub open spec fn first_nul_at(s: Seq<u8>, p: int) -> bool {
    &&& 0 <= p < s.len()
    &&& s[p] == 0
    &&& null_free(s.take(p))
}

/// The index of the first zero byte of `bytes`, if it has one.
pub fn find_nul(bytes: &[u8]) -> (found: Option<usize>)
    ensures
        match found {
            Some(p) => first_nul_at(bytes@, p as int),
            None => null_free(bytes@),
        },
{
    let mut i: usize = 0;
    while i < bytes.len()
        invariant
            i <= bytes@.len(),
            null_free(bytes@.take(i as int)),
        decreases bytes@.len() - i,
    {
        if bytes[i] == 0 {
            return Some(i);
        }
        proof {
            let shorter = bytes@.take(i as int);
            let longer = bytes@.take(i + 1);
            assert forall|j: int| 0 <= j < longer.len() implies #[trigger] longer[j] != 0 by {
                if j < i {
                    assert(shorter[j] != 0);
                }
            }
        }
        i += 1;
    }
    proof {
        assert(bytes@.take(i as int) =~= bytes@);
    }
    None
}

/// Appends `data` to `buf`.
pub fn append(buf: &mut Vec<u8>, data: &[u8])
    ensures
        final(buf)@ == old(buf)@ + data@,
{
    buf.extend_from_slice(data);
}

/// Whether `a` and `b` hold the same bytes.
pub fn bytes_eq(a: &[u8], b: &[u8]) -> (same: bool)
    ensures
        same == (a@ == b@),
{
    if a.len() != b.len() {
        return false;
    }
    let mut i: usize = 0;
    while i < a.len()
        invariant
            a@.len() == b@.len(),
            i <= a@.len(),
            a@.take(i as int) == b@.take(i as int),
        decreases a@.len() - i,
    {
        if a[i] != b[i] {
            return false;
        }
        proof {
            let (x, y) = (a@.take(i as int), b@.take(i as int));
            assert(a@.take(i + 1) =~= x.push(a@[i as int]));
            assert(b@.take(i + 1) =~= y.push(b@[i as int]));
        }
        i += 1;
    }
    proof {
        assert(a@.take(i as int) =~= a@);
        assert(b@.take(i as int) =~= b@);
    }
    true
}

/// A run of bytes has no zero byte exactly when neither of its two parts has.
pub proof fn lemma_null_free_concat(a: Seq<u8>, b: Seq<u8>)
    ensures
        null_free(a + b) <==> null_free(a) && null_free(b),
{
    let whole = a + b;
    if null_free(whole) {
        assert forall|i: int| 0 <= i < a.len() implies #[trigger] a[i] != 0 by {
            assert(whole[i] == a[i]);
        }
        assert forall|i: int| 0 <= i < b.len() implies #[trigger] b[i] != 0 by {
            assert(whole[a.len() + i] == b[i]);
        }
    }
    if null_free(a) && null_free(b) {
        assert forall|i: int| 0 <= i < whole.len() implies #[trigger] whole[i] != 0 by {
            if i < a.len() {
                assert(whole[i] == a[i]);
            } else {
                assert(whole[i] == b[i - a.len()]);
            }
        }
    }
}

} // verus!
