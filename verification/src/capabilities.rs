//! Linux capability sets: the list of capability indices that the manager
//! shows and the bit mask that the kernel stores.

use vstd::prelude::*;

verus! {

/// Maximum valid Linux capability bit index (CAP_LAST_CAP as of kernel 6.x).
pub const CAP_LAST_CAP: u32 = 40;

/// A capability index that the kernel knows.
pub open spec fn is_valid_cap(c: i32) -> bool {
    0 <= c && c <= CAP_LAST_CAP
}

/// Bit `b` of `x` is set.
pub open spec fn has_bit(x: u64, b: u64) -> bool {
    (x >> b) & 1 == 1
}

/// The mask of the valid capabilities of a list; invalid entries are
/// ignored.
pub open spec fn cap_mask(caps: Seq<i32>) -> u64
    decreases caps.len(),
{
    if caps.len() == 0 {
        0
    } else {
        let m = cap_mask(caps.drop_last());
        if is_valid_cap(caps.last()) {
            m | (1u64 << (caps.last() as u64))
        } else {
            m
        }
    }
}

/// The capabilities below `n` whose bits are set in `bits`, in increasing
/// order.
pub open spec fn caps_below(bits: u64, n: nat) -> Seq<i32>
    decreases n,
{
    if n == 0 {
        Seq::empty()
    } else {
        let p = caps_below(bits, (n - 1) as nat);
        if bits & (1u64 << ((n - 1) as u64)) != 0 {
            p.push((n - 1) as i32)
        } else {
            p
        }
    }
}

/// The capability list that a mask stands for.
pub open spec fn caps_of_mask(bits: u64) -> Seq<i32> {
    caps_below(bits, (CAP_LAST_CAP + 1) as nat)
}

/// Convert a list of capability indices to a bitmask; indices outside
/// `0..=CAP_LAST_CAP` are ignored.
pub fn cap_list_to_bits(caps: &Vec<i32>) -> (r: u64)
    ensures
        r == cap_mask(caps@),
{
    let mut result: u64 = 0;
    let mut i: usize = 0;
    proof {
        assert(caps@.take(0) =~= Seq::<i32>::empty());
    }
    while i < caps.len()
        invariant
            i <= caps@.len(),
            result == cap_mask(caps@.take(i as int)),
        decreases caps@.len() - i,
    {
        let cap = caps[i];
        assert(caps@.take(i + 1).drop_last() =~= caps@.take(i as int));
        assert(caps@.take(i + 1).last() == cap);
        if cap >= 0 && (cap as u32) <= CAP_LAST_CAP {
            result = result | (1u64 << (cap as u64));
        }
        i = i + 1;
    }
    assert(caps@.take(i as int) =~= caps@);
    result
}

/// Expand a capability bitmask to the list of set indices `0..=CAP_LAST_CAP`,
/// in increasing order.
pub fn cap_bits_to_list(bits: u64) -> (r: Vec<i32>)
    ensures
        r@ == caps_of_mask(bits),
{
    let mut r: Vec<i32> = Vec::new();
    let mut i: u32 = 0;
    while i <= CAP_LAST_CAP
        invariant
            i <= CAP_LAST_CAP + 1,
            r@ == caps_below(bits, i as nat),
        decreases CAP_LAST_CAP + 1 - i,
    {
        if bits & (1u64 << (i as u64)) != 0 {
            r.push(i as i32);
        }
        i = i + 1;
    }
    r
}

proof fn lemma_or_bit(m: u64, c: u64, b: u64)
    requires
        c < 64,
        b < 64,
    ensures
        has_bit(m | (1u64 << c), b) == (has_bit(m, b) || b == c),
{
    assert(((m | (1u64 << c)) >> b) & 1 == 1 <==> ((m >> b) & 1 == 1 || b == c)) by (bit_vector)
        requires
            c < 64,
            b < 64,
    ;
}

/// Bit `b` of the mask of a list is set exactly when `b` is a valid
/// capability that the list holds.
pub proof fn cap_mask_bits(caps: Seq<i32>, b: u64)
    requires
        b < 64,
    ensures
        has_bit(cap_mask(caps), b) == (b <= CAP_LAST_CAP && caps.contains(b as i32)),
    decreases caps.len(),
{
    if caps.len() == 0 {
        assert((0u64 >> b) & 1 != 1) by (bit_vector);
    } else {
        let p = caps.drop_last();
        let x = caps.last();
        cap_mask_bits(p, b);
        if is_valid_cap(x) {
            lemma_or_bit(cap_mask(p), x as u64, b);
        }
        if p.contains(b as i32) {
            let k = choose|k: int| 0 <= k < p.len() && p[k] == b as i32;
            assert(caps[k] == b as i32);
        }
        if caps.contains(b as i32) && b <= CAP_LAST_CAP {
            let k = choose|k: int| 0 <= k < caps.len() && caps[k] == b as i32;
            if k < p.len() {
                assert(p[k] == b as i32);
            } else {
                assert(x == b as i32);
            }
        }
        if is_valid_cap(x) && b == x as u64 {
            assert(caps[caps.len() - 1] == x);
        }
    }
}

proof fn lemma_and_bit(bits: u64, i: u64)
    requires
        i < 64,
    ensures
        (bits & (1u64 << i) != 0) == has_bit(bits, i),
{
    assert((bits & (1u64 << i) != 0) == ((bits >> i) & 1 == 1)) by (bit_vector)
        requires
            i < 64,
    ;
}

/// The list of a mask below `n` holds exactly the indices below `n` whose
/// bits are set, in strictly increasing order.
pub proof fn caps_below_members(bits: u64, n: nat)
    requires
        n <= 64,
    ensures
        forall|x: i32| caps_below(bits, n).contains(x) <==> (0 <= x < n && has_bit(bits, x as u64)),
        forall|i: int, j: int|
            0 <= i < j < caps_below(bits, n).len() ==> caps_below(bits, n)[i] < caps_below(
                bits,
                n,
            )[j],
        forall|i: int| 0 <= i < caps_below(bits, n).len() ==> 0 <= #[trigger] caps_below(bits, n)[i] < n,
    decreases n,
{
    if n > 0 {
        let m = (n - 1) as nat;
        let p = caps_below(bits, m);
        caps_below_members(bits, m);
        lemma_and_bit(bits, m as u64);
        let r = caps_below(bits, n);
        assert forall|x: i32| r.contains(x) <==> (0 <= x < n && has_bit(bits, x as u64)) by {
            if r.contains(x) {
                let k = choose|k: int| 0 <= k < r.len() && r[k] == x;
                if k < p.len() {
                    assert(p[k] == x);
                    assert(p.contains(x));
                }
            }
            if 0 <= x < n && has_bit(bits, x as u64) {
                if x < m {
                    assert(p.contains(x));
                    let k = choose|k: int| 0 <= k < p.len() && p[k] == x;
                    assert(r[k] == x);
                } else {
                    assert(r[r.len() - 1] == x);
                }
            }
        }
    }
}

/// Expanding the mask of a capability list gives the valid capabilities of
/// the list, each once, in increasing order.
pub proof fn mask_then_list(caps: Seq<i32>)
    ensures
        forall|x: i32| caps_of_mask(cap_mask(caps)).contains(x) <==> (is_valid_cap(x) && caps.contains(x)),
        forall|i: int, j: int|
            0 <= i < j < caps_of_mask(cap_mask(caps)).len() ==> caps_of_mask(cap_mask(caps))[i]
                < caps_of_mask(cap_mask(caps))[j],
{
    let m = cap_mask(caps);
    caps_below_members(m, 41);
    assert forall|x: i32| caps_of_mask(m).contains(x) <==> (is_valid_cap(x) && caps.contains(x)) by {
        if 0 <= x < 41 {
            cap_mask_bits(caps, x as u64);
        }
    }
}

/// Listing a mask and taking the mask of the list again keeps exactly the
/// capability bits (0 to 40) of the original mask and clears the others.
pub proof fn list_then_mask(bits: u64, b: u64)
    requires
        b < 64,
    ensures
        has_bit(cap_mask(caps_of_mask(bits)), b) == (b <= CAP_LAST_CAP && has_bit(bits, b)),
{
    caps_below_members(bits, 41);
    cap_mask_bits(caps_of_mask(bits), b);
}

} // verus!
