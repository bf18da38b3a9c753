//! Decimal rendering of unsigned integers, used for the `"offset"` user
//! property and for broker-assigned client identifiers.

use vstd::prelude::*;

verus! {

/// The character for one decimal digit value.
pub open spec fn digit_char(d: int) -> char
    recommends
        0 <= d < 10,
{
    if d == 0 {
        '0'
    } else if d == 1 {
        '1'
    } else if d == 2 {
        '2'
    } else if d == 3 {
        '3'
    } else if d == 4 {
        '4'
    } else if d == 5 {
        '5'
    } else if d == 6 {
        '6'
    } else if d == 7 {
        '7'
    } else if d == 8 {
        '8'
    } else {
        '9'
    }
}

/// The decimal rendering of `n`, most significant digit first, without
/// leading zeros (`0` renders as `"0"`).
pub open spec fn spec_decimal(n: nat) -> Seq<char>
    decreases n,
{
    if n < 10 {
        seq![digit_char(n as int)]
    } else {
        spec_decimal(n / 10).push(digit_char((n % 10) as int))
    }
}

/// The characters of the digit values `ds` (least significant first), read
/// back in most-significant-first order.
pub open spec fn chars_rev(ds: Seq<u64>) -> Seq<char>
    decreases ds.len(),
{
    if ds.len() == 0 {
        Seq::<char>::empty()
    } else {
        seq![digit_char(ds.last() as int)] + chars_rev(ds.drop_last())
    }
}

/// Renders `n` in decimal.
pub fn u64_to_string(n: u64) -> (r: String)
    ensures
        r@ == spec_decimal(n as nat),
{
    let mut digits: Vec<u64> = Vec::new();
    let mut m: u64 = n;
    loop
        invariant
            digits@.len() == 0 ==> m == n,
            digits@.len() > 0 && m > 0 ==> spec_decimal(n as nat) == spec_decimal(m as nat)
                + chars_rev(digits@),
            digits@.len() > 0 && m == 0 ==> spec_decimal(n as nat) == chars_rev(digits@),
            forall|j: int| 0 <= j < digits@.len() ==> digits@[j] < 10,
        ensures
            digits@.len() > 0,
            spec_decimal(n as nat) == chars_rev(digits@),
            forall|j: int| 0 <= j < digits@.len() ==> digits@[j] < 10,
        decreases m, (if digits@.len() == 0 { 1int } else { 0int }),
    {
        if m == 0 && digits.len() > 0 {
            break ;
        }
        let d: u64 = m % 10;
        let next: u64 = m / 10;
        proof {
            let ds = digits@;
            let dc = seq![digit_char(d as int)];
            assert(ds.push(d).last() == d);
            assert(ds.push(d).drop_last() =~= ds);
            assert(chars_rev(ds.push(d)) == dc + chars_rev(ds));
            if ds.len() == 0 {
                assert(chars_rev(ds) =~= Seq::<char>::empty());
                assert(dc + chars_rev(ds) =~= dc);
                if m < 10 {
                    assert(spec_decimal(n as nat) == dc);
                } else {
                    assert(spec_decimal(m as nat) == spec_decimal(next as nat).push(
                        digit_char(d as int),
                    ));
                    assert(spec_decimal(next as nat).push(digit_char(d as int))
                        =~= spec_decimal(next as nat) + dc);
                }
            } else {
                if m < 10 {
                    // Here m > 0, since m == 0 with digits present breaks above.
                    assert(spec_decimal(m as nat) == dc);
                    assert(spec_decimal(m as nat) + chars_rev(ds) == dc + chars_rev(ds));
                } else {
                    assert(spec_decimal(m as nat) == spec_decimal(next as nat).push(
                        digit_char(d as int),
                    ));
                    assert(spec_decimal(next as nat).push(digit_char(d as int))
                        =~= spec_decimal(next as nat) + dc);
                    assert((spec_decimal(next as nat) + dc) + chars_rev(ds)
                        =~= spec_decimal(next as nat) + (dc + chars_rev(ds)));
                }
            }
        }
        digits.push(d);
        m = next;
    }
    let ten = "0123456789";
    proof {
        reveal_strlit("0123456789");
    }
    let mut out = String::new();
    let mut i: usize = digits.len();
    proof {
        assert(digits@.subrange(0, digits@.len() as int) =~= digits@);
        assert(out@ + chars_rev(digits@) =~= chars_rev(digits@));
    }
    while i > 0
        invariant
            i <= digits@.len(),
            forall|j: int| 0 <= j < digits@.len() ==> digits@[j] < 10,
            ten@ == "0123456789"@,
            ten.is_ascii(),
            ten@.len() == 10,
            forall|d: int| 0 <= d < 10 ==> ten@[d] == digit_char(d),
            chars_rev(digits@) == out@ + chars_rev(digits@.subrange(0, i as int)),
        decreases i,
    {
        let d: u64 = digits[i - 1];
        let c: &str = ten.substring_ascii(d as usize, d as usize + 1);
        proof {
            let sub = digits@.subrange(0, i as int);
            assert(sub.last() == digits@[i - 1]);
            assert(sub.drop_last() =~= digits@.subrange(0, i - 1));
            assert(c@ =~= seq![digit_char(d as int)]);
            assert(out@ + (seq![digit_char(d as int)] + chars_rev(digits@.subrange(0, i - 1)))
                =~= (out@ + seq![digit_char(d as int)]) + chars_rev(digits@.subrange(0, i - 1)));
        }
        out.append(c);
        i = i - 1;
    }
    proof {
        assert(digits@.subrange(0, 0) =~= Seq::<u64>::empty());
        assert(chars_rev(digits@.subrange(0, 0)) =~= Seq::<char>::empty());
        assert(out@ + Seq::<char>::empty() =~= out@);
        assert(out@ == spec_decimal(n as nat));
    }
    out
}

} // verus!
