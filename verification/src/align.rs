use vstd::prelude::*;
use vstd::arithmetic::power2::pow2;
use vstd::bits::low_bits_mask;

verus! {

/// `a` is a power of two that fits in a `usize`.
pub open spec fn is_power_of_two(a: usize) -> bool {
    exists|k: nat| k < usize::BITS && pow2(k) == a
}

/// The least multiple of `align` that is at least `len`.
pub open spec fn round_up(len: int, align: int) -> int {
    ((len + align - 1) / align) * align
}

/// Clearing the bits below a power of two rounds down to a multiple of it.
proof fn lemma_mask_rounds_down(n: usize, a: usize)
    requires
        is_power_of_two(a),
    ensures
        a >= 1,
        n & !((a - 1) as usize) == n - n % a,
        n & !((a - 1) as usize) == (n / a) * a,
{
    let k = choose|k: nat| k < usize::BITS && pow2(k) == a;
    vstd::arithmetic::power2::lemma_pow2_pos(k);
    assert(low_bits_mask(k) == pow2(k) - 1);
    vstd::bits::lemma_usize_low_bits_mask_is_mod(n, k);
    let m: usize = (a - 1) as usize;
    assert(n & m == n % a);
    assert(n & m <= n && n & !m == n - (n & m)) by (bit_vector);
    vstd::arithmetic::div_mod::lemma_fundamental_div_mod(n as int, a as int);
}

/// Rounds `n` down to a multiple of `align`.
pub fn align_down(n: usize, align: usize) -> (r: usize)
    requires
        align >= 1,
    ensures
        r == n & !((align - 1) as usize),
        is_power_of_two(align) ==> r == n - n % align && r % align == 0,
{
    proof {
        if is_power_of_two(align) {
            lemma_mask_rounds_down(n, align);
            vstd::arithmetic::div_mod::lemma_mod_multiples_basic((n / align) as int, align as int);
        }
    }
    n & !(align - 1)
}

/// Rounds `len` up to a multiple of `align`.
pub fn align_up(len: usize, align: usize) -> (r: usize)
    requires
        align >= 1,
        len + align - 1 <= usize::MAX,
    ensures
        r == ((len + align - 1) as usize) & !((align - 1) as usize),
        is_power_of_two(align) ==> {
            &&& r == round_up(len as int, align as int)
            &&& r % align == 0
            &&& len <= r < len + align
        },
{
    let x = len + (align - 1);
    proof {
        if is_power_of_two(align) {
            lemma_mask_rounds_down(x, align);
            vstd::arithmetic::div_mod::lemma_mod_multiples_basic((x / align) as int, align as int);
            vstd::arithmetic::div_mod::lemma_fundamental_div_mod(x as int, align as int);
        }
    }
    x & !(align - 1)
}

} // verus!
