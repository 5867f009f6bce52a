use vstd::prelude::*;
use crate::cell::MeasurementCell;

verus! {

/// An ASCII decimal digit.
pub open spec fn is_digit(b: u8) -> bool {
    48 <= b <= 57
}

/// The number that a run of ASCII decimal digits spells.
pub open spec fn digits_value(s: Seq<u8>) -> nat
    decreases s.len(),
{
    if s.len() == 0 {
        0
    } else {
        digits_value(s.drop_last()) * 10 + (s.last() - 48) as nat
    }
}

/// The digit part of a payload: one leading `+` is allowed and dropped.
pub open spec fn unsigned_part(s: Seq<u8>) -> Seq<u8> {
    if s.len() > 0 && s[0] == 43 {
        s.drop_first()
    } else {
        s
    }
}

/// The measurement that a payload carries: an optional `+` and at least one
/// decimal digit (leading zeros allowed), naming a value that fits in `u16`.
pub open spec fn decoded_measurement(payload: Seq<u8>) -> Option<u16> {
    let d = unsigned_part(payload);
    if d.len() > 0 && (forall|i: int| 0 <= i < d.len() ==> is_digit(#[trigger] d[i]))
        && digits_value(d) <= u16::MAX {
        Some(digits_value(d) as u16)
    } else {
        None
    }
}

proof fn lemma_prefix_value_bounded(s: Seq<u8>, k: int)
    requires
        0 <= k <= s.len(),
        forall|i: int| 0 <= i < s.len() ==> is_digit(#[trigger] s[i]),
    ensures
        digits_value(s.subrange(0, k)) <= digits_value(s),
    decreases s.len(),
{
    if k < s.len() {
        assert(s.drop_last() =~= s.subrange(0, s.len() - 1));
        assert(s.subrange(0, k) =~= s.drop_last().subrange(0, k));
        lemma_prefix_value_bounded(s.drop_last(), k);
    } else {
        assert(s.subrange(0, k) =~= s);
    }
}

/// Decodes an inbound payload as a decimal reading; malformed payloads give `None`.
pub fn decode_measurement(payload: &[u8]) -> (r: Option<u16>)
    ensures
        r == decoded_measurement(payload@),
{
    let n = payload.len();
    let start: usize = if n > 0 && payload[0] == 43u8 { 1 } else { 0 };
    let ghost d = unsigned_part(payload@);
    assert(d =~= payload@.subrange(start as int, n as int));
    if start == n {
        return None;
    }
    let mut acc: u32 = 0;
    let mut i: usize = start;
    while i < n
        invariant
            start <= i <= n,
            n == payload@.len(),
            d =~= payload@.subrange(start as int, n as int),
            d == unsigned_part(payload@),
            forall|j: int| 0 <= j < i - start ==> is_digit(#[trigger] d[j]),
            acc as nat == digits_value(d.subrange(0, i - start)),
            acc <= u16::MAX,
        decreases n - i,
    {
        let b = payload[i];
        if b < 48u8 || b > 57u8 {
            assert(d[i - start] == b);
            return None;
        }
        let next = acc * 10 + (b - 48u8) as u32;
        proof {
            let p = d.subrange(0, i - start + 1);
            assert(p.drop_last() =~= d.subrange(0, i - start));
            assert(d[i - start] == b);
            assert(p.last() == b);
            assert(digits_value(p) == next as nat);
        }
        if next > 65535u32 {
            proof {
                assert forall|j: int| 0 <= j < i - start + 1 implies is_digit(
                    #[trigger] d.subrange(0, i - start + 1)[j],
                ) by {}
                if forall|j: int| 0 <= j < d.len() ==> is_digit(#[trigger] d[j]) {
                    lemma_prefix_value_bounded(d, i - start + 1);
                }
            }
            return None;
        }
        acc = next;
        i = i + 1;
    }
    assert(d.subrange(0, n - start) =~= d);
    Some(acc as u16)
}

/// Hands an inbound payload to the measurement cell: a well-formed reading
/// overwrites it, a malformed one is dropped and the cell keeps its value.
/// Returns whether the payload was taken.
pub fn ingest_payload(cell: &mut MeasurementCell, payload: &[u8]) -> (r: bool)
    ensures
        r == decoded_measurement(payload@) is Some,
        final(cell)@ == match decoded_measurement(payload@) {
            Some(v) => v,
            None => old(cell)@,
        },
{
    match decode_measurement(payload) {
        Some(v) => {
            cell.set(v);
            true
        },
        None => false,
    }
}

} // verus!
