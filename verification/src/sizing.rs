//! Bounds of what growable containers own while they grow.
//!
//! Totals are computed with their true value. A total that the machine cannot hold is reported as
//! none, before anything is allocated.

use vstd::arithmetic::overflow::CheckedUsize;
use vstd::arithmetic::power2::{lemma2_to64, lemma_pow2_pos, lemma_pow2_unfold, pow2};
use vstd::layout::size_of;
use vstd::prelude::*;

verus! {

/// A total, unless the machine cannot hold it.
pub open spec fn fitted(total: int) -> Option<usize> {
    if 0 <= total <= usize::MAX {
        Some(total as usize)
    } else {
        None
    }
}

/// The backing of a vector that grew to `items` items of `width` bytes, with the backing that it
/// grew out of.
///
/// A vector doubles, and starts with eight bytes, four small items or one large item.
pub open spec fn vector_bytes(width: nat, items: nat) -> nat {
    if items == 0 || width == 0 {
        0
    } else {
        let minimum: nat = if width == 1 {
            8
        } else if width <= 1024 {
            4
        } else {
            1
        };
        let slots = if 2 * items >= minimum {
            2 * items
        } else {
            minimum
        };
        slots * 2 * width
    }
}

/// The first power of two from `power` on that is at least `n`.
pub open spec fn power_from(power: nat, n: nat) -> nat
    decreases
            if power < n {
                n - power
            } else {
                0
            },
{
    if power == 0 || power >= n {
        power
    } else {
        power_from(2 * power, n)
    }
}

/// The buckets of a hash table of `items` items at a load of seven eighths, at least four.
pub open spec fn buckets(items: nat) -> nat {
    let power = power_from(1, (8 * items + 6) / 7);
    if power >= 4 {
        power
    } else {
        4
    }
}

/// The backing of a hash table that grew to `items` items of `width` bytes, with the backing that
/// it grew out of: one control byte for each bucket, and the trailing group with its alignment.
///
/// A table whose buckets cannot be counted is larger than anything.
pub open spec fn hash_bytes(width: nat, items: nat) -> nat {
    if items == 0 {
        0
    } else if 8 * items + 6 > usize::MAX {
        usize::MAX as nat + 1
    } else {
        (buckets(items) * (width + 1) + 31) * 2
    }
}

/// The backing of a text that grew to `bytes` bytes.
pub open spec fn text_bytes(bytes: nat) -> nat {
    vector_bytes(1, bytes)
}

/// Sums of totals grow with their parts.
pub(crate) fn plus(total: &CheckedUsize, part: &CheckedUsize) -> (sum: CheckedUsize)
    ensures
        sum@ == total@ + part@,
{
    total.add_checked(part)
}

/// The backing of a vector of items of `width` bytes.
pub(crate) fn vector_total(width: usize, items: &CheckedUsize) -> (total: CheckedUsize)
    ensures
        total@ == vector_bytes(width as nat, items@),
{
    let known = items.to_option();
    match known {
        Some(0) => CheckedUsize::new(0),
        _ => {
            if width == 0 {
                return CheckedUsize::new(0);
            }
            let minimum: usize = if width == 1 {
                8
            } else if width <= 1024 {
                4
            } else {
                1
            };
            let doubled = items.mul_value(2);
            let slots = match doubled.to_option() {
                Some(slots) => if slots < minimum {
                    CheckedUsize::new(minimum)
                } else {
                    doubled
                },
                None => doubled,
            };
            let bytes = slots.mul_value(2).mul_value(width);
            assert(bytes@ == slots@ * 2 * width);
            bytes
        },
    }
}

/// The backing of a vector of values of a type.
pub(crate) fn vector_of<T>(items: usize) -> (total: CheckedUsize)
    ensures
        total@ == vector_bytes(size_of::<T>(), items as nat),
{
    vector_total(core::mem::size_of::<T>(), &CheckedUsize::new(items))
}

/// The backing of a text.
pub(crate) fn text_total(bytes: &CheckedUsize) -> (total: CheckedUsize)
    ensures
        total@ == text_bytes(bytes@),
{
    vector_total(1, bytes)
}

/// The first power of two that is at least `n`, unless the machine cannot hold it.
pub(crate) fn power_of_two(n: usize) -> (r: Option<usize>)
    ensures
        match r {
            Some(power) => power == power_from(1, n as nat),
            None => power_from(1, n as nat) > usize::MAX,
        },
{
    let mut power: usize = 1;
    while power < n
        invariant
            power >= 1,
            power_from(power as nat, n as nat) == power_from(1, n as nat),
        decreases
            if power < n {
                n - power
            } else {
                0
            },
    {
        match power.checked_mul(2) {
            Some(next) => power = next,
            None => {
                assert(power_from(power as nat, n as nat) == power_from(
                    2 * power as nat,
                    n as nat,
                ));
                proof {
                    powers_do_not_shrink(2 * power as nat, n as nat);
                }
                return None;
            },
        }
    }
    Some(power)
}

proof fn powers_do_not_shrink(power: nat, n: nat)
    ensures
        power_from(power, n) >= power,
    decreases
            if power < n {
                n - power
            } else {
                0
            },
{
    if power > 0 && power < n {
        powers_do_not_shrink(2 * power, n);
    }
}

/// The backing of a hash table of items of `width` bytes.
pub(crate) fn hash_total(width: usize, items: usize) -> (total: CheckedUsize)
    ensures
        total@ == hash_bytes(width as nat, items as nat),
{
    if items == 0 {
        return CheckedUsize::new(0);
    }
    let scaled: usize = match CheckedUsize::new(items).mul_value(8).add_value(6).to_option() {
        Some(scaled) => scaled,
        None => return CheckedUsize::new_overflowed(Ghost(usize::MAX as int + 1)),
    };
    let count = match power_of_two(scaled / 7) {
        Some(power) => CheckedUsize::new(
            if power >= 4 {
                power
            } else {
                4
            },
        ),
        None => CheckedUsize::new_overflowed(Ghost(buckets(items as nat) as int)),
    };
    let width = CheckedUsize::new(width).add_value(1);
    let total = count.mul_checked(&width).add_value(31).mul_value(2);
    assert(total@ == (count@ * width@ + 31) * 2);
    total
}

/// The backing of a hash table of values of a type.
pub(crate) fn hash_of<T>(items: usize) -> (total: CheckedUsize)
    ensures
        total@ == hash_bytes(size_of::<T>(), items as nat),
{
    hash_total(core::mem::size_of::<T>(), items)
}

/// The size of a type.
pub(crate) fn size<T>() -> (total: CheckedUsize)
    ensures
        total@ == size_of::<T>(),
{
    CheckedUsize::new(core::mem::size_of::<T>())
}

/// Bounds the backing of a vector of values while it grows to `items` values.
pub fn vector_peak<T>(items: usize) -> (r: Option<usize>)
    ensures
        r == fitted(vector_bytes(size_of::<T>(), items as nat) as int),
{
    vector_of::<T>(items).to_option()
}

/// Bounds the backing of a hash table of values while it grows to `items` values.
pub fn hash_peak<T>(items: usize) -> (r: Option<usize>)
    ensures
        r == fitted(hash_bytes(size_of::<T>(), items as nat) as int),
{
    hash_of::<T>(items).to_option()
}

/// A larger container never needs less.
pub proof fn vectors_need_more_for_more(width: nat, fewer: nat, more: nat)
    requires
        fewer <= more,
    ensures
        vector_bytes(width, fewer) <= vector_bytes(width, more),
{
    if fewer > 0 && width > 0 {
        let minimum: nat = if width == 1 {
            8
        } else if width <= 1024 {
            4
        } else {
            1
        };
        let small: nat = if 2 * fewer >= minimum {
            2 * fewer
        } else {
            minimum
        };
        let large: nat = if 2 * more >= minimum {
            2 * more
        } else {
            minimum
        };
        assert(small * 2 * width <= large * 2 * width) by (nonlinear_arith)
            requires
                small <= large,
        ;
    }
}

/// A vector's bound covers its items.
pub proof fn vectors_hold_their_items(width: nat, items: nat)
    ensures
        vector_bytes(width, items) >= items * width,
{
    if items > 0 && width > 0 {
        let minimum: nat = if width == 1 {
            8
        } else if width <= 1024 {
            4
        } else {
            1
        };
        let slots: nat = if 2 * items >= minimum {
            2 * items
        } else {
            minimum
        };
        assert(slots * 2 * width >= items * width) by (nonlinear_arith)
            requires
                slots >= 2 * items,
        ;
    }
}

/// A vector's backing counts twice: for the slots it has, and for those it grew out of. It has room for
/// twice its items, and at least for the smallest vector: eight bytes, four items of up to a thousand
/// and twenty-four bytes, or one larger item.
pub proof fn vectors_count_their_slots_twice(width: nat, items: nat)
    requires
        width > 0,
        items > 0,
    ensures
        width == 1 && items < 4 ==> vector_bytes(width, items) == 16,
        1 < width <= 1024 && items == 1 ==> vector_bytes(width, items) == 8 * width,
        width > 1024 || items >= 4 || (width > 1 && items >= 2) ==> vector_bytes(width, items) == 4 * (
        width * items),
        vector_bytes(width, 0) == 0,
        vector_bytes(0, items) == 0,
{
    assert(2 * items * 2 * width == 4 * (width * items)) by (nonlinear_arith);
}

proof fn powers_are_the_next(power: nat, n: nat, k: nat)
    requires
        power == pow2(k),
        k > 0 ==> pow2((k - 1) as nat) < n,
    ensures
        power_from(power, n) >= n,
        exists|m: nat|
            power_from(power, n) == #[trigger] pow2(m) && (m > 0 ==> pow2((m - 1) as nat) < n),
    decreases
            if power < n {
                n - power
            } else {
                0
            },
{
    lemma_pow2_pos(k);
    if power < n {
        lemma_pow2_unfold(k + 1);
        powers_are_the_next(2 * power, n, k + 1);
    } else {
        assert(power_from(power, n) == pow2(k));
    }
}

/// A hash table has a power of two of buckets, four at least, of which seven eighths hold all its
/// items, while half as many would not. Each bucket takes an item and a byte, the table a little more,
/// and it counts twice.
pub proof fn tables_have_the_next_power_of_buckets(width: nat, items: nat)
    requires
        items > 0,
        8 * items + 6 <= usize::MAX,
    ensures
        exists|k: nat|
            {
                let buckets = #[trigger] pow2(k);
                &&& hash_bytes(width, items) == 2 * (buckets * (width + 1) + 31)
                &&& 7 * buckets >= 8 * items
                &&& buckets == 4 || (buckets > 4 && 7 * buckets < 2 * (8 * items + 6))
            },
        hash_bytes(width, 0) == 0,
{
    let n = (8 * items + 6) / 7;
    lemma2_to64();
    powers_are_the_next(1, n, 0);
    let m = choose|m: nat|
        power_from(1, n) == #[trigger] pow2(m) && (m > 0 ==> pow2((m - 1) as nat) < n);
    if pow2(m) >= 4 {
        assert(buckets(items) == pow2(m));
        if m > 0 {
            lemma_pow2_unfold(m);
        }
    } else {
        assert(buckets(items) == pow2(2));
    }
}

} // verus!
