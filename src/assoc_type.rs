//! Field and action names packed into integers, sixteen bytes at a time.
use vstd::prelude::*;
use vstd::string::StringSliceAdditionalSpecFns;

verus! {

/// `256` to the power `k`.
pub open spec fn pow256(k: nat) -> nat
    decreases k,
{
    if k == 0 {
        1
    } else {
        256 * pow256((k - 1) as nat)
    }
}

/// The bytes `b[r .. r + k]`, read as a little-endian number; bytes past the end of `b`
/// count as zero.
pub open spec fn seg(b: Seq<u8>, r: int, k: nat) -> nat
    decreases k,
{
    if k == 0 {
        0
    } else {
        seg(b, r, (k - 1) as nat) + if r + k - 1 < b.len() {
            b[r + k - 1] as nat * pow256((k - 1) as nat)
        } else {
            0
        }
    }
}

proof fn lemma_pow256_bound(k: nat)
    requires
        k <= 16,
    ensures
        1 <= pow256(k) <= pow256(16),
        k < 16 ==> 256 * pow256(k) <= pow256(16),
        pow256(16) == 0x1_0000_0000_0000_0000_0000_0000_0000_0000,
    decreases 16 - k,
{
    reveal_with_fuel(pow256, 17);
    if k < 16 {
        lemma_pow256_bound(k + 1);
    }
}

/// The sixteen bytes of `s` from byte `r` on, little-endian, as one `u128`; bytes past the
/// end of `s` count as zero.
pub fn seg_str(s: &str, r: usize) -> (c: u128)
    ensures
        c == seg(s.spec_bytes(), r as int, 16),
{
    let b = s.as_bytes();
    let n = b.len();
    let mut i: usize = 0;
    let mut c: u128 = 0;
    let mut mult: u128 = 1;
    proof {
        lemma_pow256_bound(0);
    }
    loop
        invariant
            b@ == s.spec_bytes(),
            n == b@.len(),
            i <= 16,
            i < 16 ==> mult == pow256(i as nat),
            c == seg(b@, r as int, i as nat),
            c < pow256(i as nat),
        decreases 16 - i,
    {
        if i >= 16 || r >= n || i >= n - r {
            proof {
                if i < 16 {
                    lemma_seg_past_end(b@, r as int, i as nat, 16);
                }
            }
            return c;
        }
        proof {
            lemma_pow256_bound(i as nat);
            lemma_pow256_bound((i + 1) as nat);
            let x = b@[r + i] as nat;
            assert(x * mult <= 255 * mult) by (nonlinear_arith)
                requires
                    x <= 255,
            ;
            assert(pow256((i + 1) as nat) == 256 * pow256(i as nat));
        }
        c = c + (b[r + i] as u128) * mult;
        i = i + 1;
        if i < 16 {
            proof {
                lemma_pow256_bound((i - 1) as nat);
                lemma_pow256_bound(i as nat);
            }
            mult = mult * 256;
        }
    }
}

proof fn lemma_seg_past_end(b: Seq<u8>, r: int, i: nat, k: nat)
    requires
        i <= k,
        r + i >= b.len(),
    ensures
        seg(b, r, k) == seg(b, r, i),
    decreases k - i,
{
    if k > i {
        lemma_seg_past_end(b, r, i, (k - 1) as nat);
    }
}

} // verus!
