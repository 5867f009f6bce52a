use vstd::prelude::*;
use vstd::string::StringSliceAdditionalSpecFns;
use vstd::utf8::{encode_utf8, encode_utf8_valid_utf8, is_char_boundary, is_char_boundary_iff_not_is_continuation_byte, length_of_first_scalar};
use crate::replay::within_limit;

verus! {

/// What `str::trim` leaves of a line.
pub uninterp spec fn trimmed(s: Seq<char>) -> Seq<char>;

/// The instant, in nanoseconds since the Unix epoch, that jiff reads from a
/// timestamp text; `None` where jiff rejects it.
pub uninterp spec fn instant_of(text: Seq<char>) -> Option<int>;

/// Relies on `str::trim`: the line without leading and trailing whitespace.
#[verifier::external_body]
fn trim_line(s: &str) -> (r: &str)
    ensures
        r@ == trimmed(s@),
{
    s.trim()
}

/// Relies on jiff's `Timestamp::from_str` (RFC 3339 with an offset or `Z`)
/// and `Timestamp::as_nanosecond`. jiff keeps a timestamp's whole seconds in
/// [-377705116800, 253402300799], narrowed by the largest zone offset, and its
/// fraction under one second, so every result is `within_limit`.
#[verifier::external_body]
fn timestamp_nanos(text: &str) -> (r: Option<i128>)
    ensures
        r is Some <==> instant_of(text@) is Some,
        r matches Some(n) ==> instant_of(text@) == Some(n as int) && within_limit(n as int),
{
    text.parse::<jiff::Timestamp>().ok().map(|t| t.as_nanosecond())
}

/// The byte at `p` is the only comma of `b`.
pub open spec fn only_comma_at(b: Seq<u8>, p: int) -> bool {
    &&& 0 <= p < b.len()
    &&& b[p] == 44
    &&& forall|i: int| 0 <= i < b.len() && i != p ==> b[i] != 44
}

/// The bytes before and after the only comma of `b`; `None` unless `b`
/// holds exactly one comma.
pub open spec fn comma_fields(b: Seq<u8>) -> Option<(Seq<u8>, Seq<u8>)> {
    if exists|p: int| only_comma_at(b, p) {
        let p = choose|p: int| only_comma_at(b, p);
        Some((b.subrange(0, p), b.subrange(p + 1, b.len() as int)))
    } else {
        None
    }
}

/// Splits a text at its only comma into the part before and the part after;
/// a text with no comma or with several gives `None`.
pub fn split_fields(t: &str) -> (r: Option<(&str, &str)>)
    ensures
        r is Some <==> comma_fields(encode_utf8(t@)) is Some,
        r matches Some(f) ==> comma_fields(encode_utf8(t@)) == Some(
            (f.0.spec_bytes(), f.1.spec_bytes()),
        ),
{
    let bytes = t.as_bytes();
    let ghost tb = encode_utf8(t@);
    assert(bytes@ == tb);
    let n = bytes.len();
    let mut found: Option<usize> = None;
    let mut i: usize = 0;
    while i < n
        invariant
            n == tb.len(),
            tb == encode_utf8(t@),
            bytes@ == tb,
            i <= n,
            match found {
                None => forall|k: int| 0 <= k < i ==> tb[k] != 44,
                Some(p) => p < i && tb[p as int] == 44 && forall|k: int|
                    0 <= k < i && k != p ==> tb[k] != 44,
            },
        decreases n - i,
    {
        if bytes[i] == 44u8 {
            if let Some(p) = found {
                assert(tb[i as int] == 44);
                assert forall|q: int| !only_comma_at(tb, q) by {
                    if only_comma_at(tb, q) {
                        if q == p {
                            assert(tb[i as int] != 44);
                        } else {
                            assert(tb[p as int] != 44);
                        }
                    }
                }
                return None;
            }
            found = Some(i);
        }
        i = i + 1;
    }
    match found {
        None => {
            assert forall|q: int| !only_comma_at(tb, q) by {}
            None
        },
        Some(p) => {
            assert(only_comma_at(tb, p as int));
            proof {
                encode_utf8_valid_utf8(t@);
                is_char_boundary_iff_not_is_continuation_byte(tb, p as int);
            }
            let (head, rest) = t.split_at(p);
            let ghost rb = rest.spec_bytes();
            proof {
                encode_utf8_valid_utf8(rest@);
                assert(rb =~= tb.subrange(p as int, n as int));
                assert(rb[0] == 44);
                assert(length_of_first_scalar(rb) == 1);
                reveal_with_fuel(is_char_boundary, 2);
                assert(is_char_boundary(rb, 1));
            }
            let (_comma, tail) = rest.split_at(1);
            assert(tail.spec_bytes() =~= tb.subrange(p as int + 1, n as int));
            proof {
                let q = choose|q: int| only_comma_at(tb, q);
                if q != p as int {
                    assert(tb[q] != 44);
                }
                assert(head.spec_bytes() =~= tb.subrange(0, p as int));
            }
            Some((head, tail))
        },
    }
}

/// Splits a replay line into its value field and its timestamp field: after
/// trimming, the line must hold exactly one comma; other lines give `None`.
pub fn split_record(line: &str) -> (r: Option<(&str, &str)>)
    ensures
        r is Some <==> comma_fields(encode_utf8(trimmed(line@))) is Some,
        r matches Some(f) ==> comma_fields(encode_utf8(trimmed(line@))) == Some(
            (f.0.spec_bytes(), f.1.spec_bytes()),
        ),
{
    let t = trim_line(line);
    split_fields(t)
}

/// Why a replay line cannot be read.
#[derive(Clone, Copy, Debug, PartialEq, Eq, Structural)]
pub enum RecordError {
    /// The timestamp field is not an RFC 3339 timestamp.
    BadTimestamp,
}

/// Reads a timestamp field as nanoseconds since the Unix epoch.
pub fn parse_instant(text: &str) -> (r: Result<i128, RecordError>)
    ensures
        r is Err <==> instant_of(text@) is None,
        r == (match instant_of(text@) {
            Some(n) => Ok::<i128, RecordError>(n as i128),
            None => Err(RecordError::BadTimestamp),
        }),
        r matches Ok(n) ==> within_limit(n as int),
{
    match timestamp_nanos(text) {
        Some(n) => Ok(n),
        None => Err(RecordError::BadTimestamp),
    }
}

} // verus!
