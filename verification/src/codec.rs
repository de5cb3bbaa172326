//! Compact, self-describing storage representation for image bytes.
//!
//! The stored form is one tag byte followed by a payload: tag 0 means the
//! payload is the input unchanged, tag 1 means the payload is a run-length
//! encoding of the input.  Encoding picks whichever form is smaller, so
//! decoding is always the exact inverse of encoding.  A decoder handed an
//! empty or malformed buffer yields an empty result rather than failing.

use vstd::prelude::*;

verus! {

/// Length of the leading run of equal bytes in `s` (uncapped).
pub open spec fn run_raw(s: Seq<u8>) -> int
    decreases s.len(),
{
    if s.len() == 0 {
        0
    } else if s.len() >= 2 && s[1] == s[0] {
        1 + run_raw(s.skip(1))
    } else {
        1
    }
}

/// Length of the leading run, capped at the largest count one byte can hold.
pub open spec fn run_of(s: Seq<u8>) -> int {
    if run_raw(s) > 255 {
        255
    } else {
        run_raw(s)
    }
}

pub proof fn lemma_run_raw_bounds(s: Seq<u8>)
    requires
        s.len() > 0,
    ensures
        1 <= run_raw(s) <= s.len(),
        forall|i: int| 0 <= i < run_raw(s) ==> #[trigger] s[i] == s[0],
        run_raw(s) < s.len() ==> s[run_raw(s)] != s[0],
    decreases s.len(),
{
    if s.len() >= 2 && s[1] == s[0] {
        lemma_run_raw_bounds(s.skip(1));
        let t = s.skip(1);
        assert forall|i: int| 0 <= i < run_raw(s) implies #[trigger] s[i] == s[0] by {
            if i >= 1 {
                assert(t[i - 1] == t[0]);
            }
        }
        if run_raw(s) < s.len() {
            assert(t[run_raw(t)] != t[0]);
        }
    }
}

/// The leading run is at least `k` when the first `k` bytes are all equal.
pub proof fn lemma_run_raw_at_least(s: Seq<u8>, k: int)
    requires
        0 <= k <= s.len(),
        forall|i: int| 0 <= i < k ==> #[trigger] s[i] == s[0],
    ensures
        run_raw(s) >= k,
    decreases s.len(),
{
    if s.len() == 0 {
    } else if s.len() >= 2 && s[1] == s[0] {
        let t = s.skip(1);
        let k1 = if k >= 1 { k - 1 } else { 0 };
        assert forall|i: int| 0 <= i < k1 implies #[trigger] t[i] == t[0] by {
            assert(s[i + 1] == s[0]);
            assert(s[1] == s[0]);
        }
        lemma_run_raw_at_least(t, k1);
    } else {
        if k >= 2 {
            assert(s[1] == s[0]);
        }
    }
}

/// Run-length encoding: a sequence of (count, byte) pairs, counts in 1..=255.
pub open spec fn rle_spec(s: Seq<u8>) -> Seq<u8>
    decreases s.len() via rle_spec_decreases
{
    if s.len() == 0 {
        Seq::empty()
    } else {
        seq![run_of(s) as u8, s[0]] + rle_spec(s.skip(run_of(s)))
    }
}

#[via_fn]
proof fn rle_spec_decreases(s: Seq<u8>) {
    if s.len() != 0 {
        lemma_run_raw_bounds(s);
    }
}

/// Run-length decoding; `None` on a malformed buffer (odd length or a zero
/// count, which the encoder never emits).
pub open spec fn unrle_spec(p: Seq<u8>) -> Option<Seq<u8>>
    decreases p.len(),
{
    if p.len() == 0 {
        Some(Seq::empty())
    } else if p.len() == 1 {
        None
    } else if p[0] == 0 {
        None
    } else {
        match unrle_spec(p.skip(2)) {
            Some(rest) => Some(Seq::new(p[0] as nat, |i: int| p[1]) + rest),
            None => None,
        }
    }
}

/// Decoding inverts encoding on every input.
pub proof fn lemma_unrle_rle(s: Seq<u8>)
    ensures
        unrle_spec(rle_spec(s)) == Some(s),
    decreases s.len(),
{
    if s.len() == 0 {
        assert(rle_spec(s) == Seq::<u8>::empty());
        assert(unrle_spec(rle_spec(s)) == Some(Seq::<u8>::empty()));
        assert(s =~= Seq::<u8>::empty());
    } else {
        lemma_run_raw_bounds(s);
        let n = run_of(s);
        let enc = rle_spec(s);
        let rest = rle_spec(s.skip(n));
        assert(enc == seq![n as u8, s[0]] + rest);
        assert(enc.len() >= 2);
        assert(enc[0] == n as u8);
        assert(enc[1] == s[0]);
        assert(enc[0] != 0) by {
            assert(1 <= n <= 255);
        }
        assert(enc.skip(2) =~= rest);
        lemma_unrle_rle(s.skip(n));
        assert(unrle_spec(enc) == Some(Seq::new(n as nat, |i: int| s[0]) + s.skip(n)));
        assert(Seq::new(n as nat, |i: int| s[0]) + s.skip(n) =~= s);
    }
}

/// Total decoder for the tagged stored form: empty or malformed input
/// yields the empty sequence.
pub open spec fn denormalize_spec(stored: Seq<u8>) -> Seq<u8> {
    if stored.len() == 0 {
        Seq::empty()
    } else if stored[0] == 0 {
        stored.skip(1)
    } else if stored[0] == 1 {
        match unrle_spec(stored.skip(1)) {
            Some(d) => d,
            None => Seq::empty(),
        }
    } else {
        Seq::empty()
    }
}

/// Tagged stored form: the run-length encoding when it is smaller, the
/// input unchanged otherwise.
pub open spec fn normalize_spec(bytes: Seq<u8>) -> Seq<u8> {
    let enc = rle_spec(bytes);
    if enc.len() < bytes.len() {
        seq![1u8] + enc
    } else {
        seq![0u8] + bytes
    }
}

/// Denormalizing a normalized buffer restores it exactly: the stored form
/// is lossless for every input.
pub proof fn lemma_normalize_round_trip(bytes: Seq<u8>)
    ensures
        denormalize_spec(normalize_spec(bytes)) == bytes,
{
    let enc = rle_spec(bytes);
    if enc.len() < bytes.len() {
        let stored = seq![1u8] + enc;
        assert(stored[0] == 1);
        assert(stored.skip(1) =~= enc);
        lemma_unrle_rle(bytes);
        assert(denormalize_spec(stored) == bytes);
    } else {
        let stored = seq![0u8] + bytes;
        assert(stored[0] == 0);
        assert(stored.skip(1) =~= bytes);
        assert(denormalize_spec(stored) =~= bytes);
    }
}

/// Run-length encode `bytes` as (count, byte) pairs with counts in 1..=255.
fn rle_encode(bytes: &Vec<u8>) -> (r: Vec<u8>)
    ensures
        r@ == rle_spec(bytes@),
{
    let mut out: Vec<u8> = Vec::new();
    let mut i: usize = 0;
    proof {
        assert(bytes@.skip(0) =~= bytes@);
        assert(out@ + rle_spec(bytes@) =~= rle_spec(bytes@));
    }
    while i < bytes.len()
        invariant
            i <= bytes.len(),
            rle_spec(bytes@) == out@ + rle_spec(bytes@.skip(i as int)),
        decreases bytes.len() - i,
    {
        let b = bytes[i];
        let mut j: usize = i + 1;
        while j < bytes.len() && j - i < 255 && bytes[j] == b
            invariant
                i < j <= bytes.len(),
                j - i <= 255,
                forall|k: int| i <= k < j ==> bytes@[k] == b,
            decreases bytes.len() - j,
        {
            j += 1;
        }
        proof {
            let t = bytes@.skip(i as int);
            let n = (j - i) as int;
            assert forall|k: int| 0 <= k < n implies #[trigger] t[k] == t[0] by {
                assert(bytes@[i + k] == b);
                assert(bytes@[i as int] == b);
            }
            if j < bytes.len() && n < 255 {
                assert(t[n] == bytes@[j as int]);
                lemma_run_raw_bounds(t);
                lemma_run_raw_at_least(t, n);
                assert(run_raw(t) == n) by {
                    if run_raw(t) > n {
                        assert(t[n] == t[0]);
                    }
                }
                assert(run_of(t) == n);
            } else if j == bytes.len() {
                lemma_run_raw_bounds(t);
                lemma_run_raw_at_least(t, n);
                assert(run_raw(t) == n);
                assert(run_of(t) == n);
            } else {
                lemma_run_raw_at_least(t, 255);
                assert(run_of(t) == 255);
            }
            assert(rle_spec(t) == seq![n as u8, t[0]] + rle_spec(t.skip(n)));
            assert(t.skip(n) =~= bytes@.skip(j as int));
            assert(t[0] == b);
            assert(out@.push(n as u8).push(b) + rle_spec(bytes@.skip(j as int)) =~= out@
                + rle_spec(bytes@.skip(i as int)));
        }
        out.push((j - i) as u8);
        out.push(b);
        i = j;
    }
    proof {
        assert(bytes@.skip(i as int) =~= Seq::<u8>::empty());
        assert(rle_spec(Seq::<u8>::empty()) == Seq::<u8>::empty());
        assert(out@ =~= out@ + Seq::<u8>::empty());
    }
    out
}

/// Normalize raw bytes into the tagged stored form.  Lossless: see
/// `lemma_normalize_round_trip`.
pub fn normalize(bytes: &Vec<u8>) -> (r: Vec<u8>)
    ensures
        r@ == normalize_spec(bytes@),
{
    let enc = rle_encode(bytes);
    let mut out: Vec<u8> = Vec::new();
    if enc.len() < bytes.len() {
        out.push(1u8);
        let mut k: usize = 0;
        while k < enc.len()
            invariant
                k <= enc.len(),
                out@ == seq![1u8] + enc@.take(k as int),
            decreases enc.len() - k,
        {
            out.push(enc[k]);
            proof {
                assert(enc@.take(k + 1) =~= enc@.take(k as int).push(enc@[k as int]));
            }
            k += 1;
        }
        proof {
            assert(enc@.take(enc@.len() as int) =~= enc@);
        }
    } else {
        out.push(0u8);
        let mut k: usize = 0;
        while k < bytes.len()
            invariant
                k <= bytes.len(),
                out@ == seq![0u8] + bytes@.take(k as int),
            decreases bytes.len() - k,
        {
            out.push(bytes[k]);
            proof {
                assert(bytes@.take(k + 1) =~= bytes@.take(k as int).push(bytes@[k as int]));
            }
            k += 1;
        }
        proof {
            assert(bytes@.take(bytes@.len() as int) =~= bytes@);
        }
    }
    out
}

/// Decode the tagged stored form back to the original bytes.  An empty or
/// malformed buffer yields an empty result rather than an error.
pub fn denormalize(stored: &Vec<u8>) -> (r: Vec<u8>)
    ensures
        r@ == denormalize_spec(stored@),
{
    if stored.len() == 0 {
        return Vec::new();
    }
    let tag = stored[0];
    if tag == 0 {
        let mut out: Vec<u8> = Vec::new();
        let mut k: usize = 1;
        while k < stored.len()
            invariant
                1 <= k <= stored.len(),
                out@ == stored@.subrange(1, k as int),
            decreases stored.len() - k,
        {
            out.push(stored[k]);
            proof {
                assert(stored@.subrange(1, k + 1) =~= stored@.subrange(1, k as int).push(
                    stored@[k as int],
                ));
            }
            k += 1;
        }
        proof {
            assert(stored@.subrange(1, stored@.len() as int) =~= stored@.skip(1));
        }
        out
    } else if tag == 1 {
        let mut out: Vec<u8> = Vec::new();
        let mut i: usize = 1;
        while i < stored.len()
            invariant
                1 <= i <= stored.len(),
                stored@.len() > 0,
                stored@[0] == 1,
                match unrle_spec(stored@.skip(i as int)) {
                    Some(rest) => unrle_spec(stored@.skip(1)) == Some(out@ + rest),
                    None => unrle_spec(stored@.skip(1)) is None,
                },
            decreases stored.len() - i,
        {
            proof {
                assert(stored@.skip(i as int).len() >= 1);
            }
            if i + 1 >= stored.len() {
                // odd payload: malformed
                proof {
                    assert(stored@.skip(i as int).len() == 1);
                    assert(unrle_spec(stored@.skip(i as int)) is None);
                }
                return Vec::new();
            }
            let c = stored[i];
            let b = stored[i + 1];
            proof {
                assert(stored@.skip(i as int)[0] == c);
                assert(stored@.skip(i as int)[1] == b);
            }
            if c == 0 {
                // zero count: malformed
                proof {
                    assert(unrle_spec(stored@.skip(i as int)) is None);
                }
                return Vec::new();
            }
            let ghost out_head = out@;
            let mut k: usize = 0;
            while k < c as usize
                invariant
                    k <= c as usize,
                    out@ == out_head + Seq::new(k as nat, |m: int| b),
                decreases c as usize - k,
            {
                out.push(b);
                proof {
                    assert(out_head + Seq::new((k + 1) as nat, |m: int| b) =~= (out_head
                        + Seq::new(k as nat, |m: int| b)).push(b));
                }
                k += 1;
            }
            proof {
                let p = stored@.skip(i as int);
                assert(p.skip(2) =~= stored@.skip(i + 2));
                assert(unrle_spec(p) == match unrle_spec(stored@.skip(i + 2)) {
                    Some(rest) => Some(Seq::new(c as nat, |m: int| b) + rest),
                    None => None::<Seq<u8>>,
                });
                if unrle_spec(stored@.skip(i + 2)) is Some {
                    let rest = unrle_spec(stored@.skip(i + 2)).unwrap();
                    assert(out_head + Seq::new(c as nat, |m: int| b) + rest =~= out_head + (
                    Seq::new(c as nat, |m: int| b) + rest));
                }
            }
            i = i + 2;
        }
        proof {
            assert(stored@.skip(i as int) =~= Seq::<u8>::empty());
            assert(unrle_spec(Seq::<u8>::empty()) == Some(Seq::<u8>::empty()));
            assert(out@ + Seq::<u8>::empty() =~= out@);
        }
        out
    } else {
        Vec::new()
    }
}

} // verus!
