//! Hardware addresses in text: six parts in base 16, with colons between.
use vstd::prelude::*;
use vstd::string::StringSliceAdditionalSpecFns;

verus! {

/// Why a text is no hardware address.
#[derive(Clone, Copy, Debug, PartialEq, Eq, Structural)]
pub enum MacError {
    /// The text has not six parts.
    WrongLength,
    /// The part with this index, counted from zero, is the first that is not
    /// a number in base 16 of at most 255.
    InvalidPart(usize),
}

/// The value of a digit in base 16, in either case.
pub open spec fn hex_digit(b: u8) -> Option<nat> {
    if 0x30 <= b <= 0x39 {
        Some((b - 0x30) as nat)
    } else if 0x61 <= b <= 0x66 {
        Some((b - 0x61 + 10) as nat)
    } else if 0x41 <= b <= 0x46 {
        Some((b - 0x41 + 10) as nat)
    } else {
        None
    }
}

/// The number that the digits write in base 16; `None` where one of them is
/// no digit.
pub open spec fn digits_value(digits: Seq<u8>) -> Option<nat>
    decreases digits.len(),
{
    if digits.len() == 0 {
        Some(0)
    } else {
        match (digits_value(digits.drop_last()), hex_digit(digits.last())) {
            (Some(value), Some(digit)) => Some(value * 16 + digit),
            _ => None,
        }
    }
}

/// The byte that a part writes: a plus sign or none, then at least one digit
/// in base 16, and a value of at most 255.
pub open spec fn part_value(part: Seq<u8>) -> Option<u8> {
    let digits = if part.len() > 0 && part[0] == 0x2b {
        part.drop_first()
    } else {
        part
    };
    if digits.len() == 0 {
        None
    } else {
        match digits_value(digits) {
            Some(value) => if value <= 255 {
                Some(value as u8)
            } else {
                None
            },
            None => None,
        }
    }
}

/// The index of the first colon, or the length where there is none.
pub open spec fn first_colon(text: Seq<u8>) -> int
    decreases text.len(),
{
    if text.len() == 0 || text[0] == 0x3a {
        0
    } else {
        1 + first_colon(text.drop_first())
    }
}

/// The parts that the colons divide a text into; one more than there are
/// colons.
pub open spec fn parts(text: Seq<u8>) -> Seq<Seq<u8>>
    decreases text.len(),
{
    let colon = first_colon(text);
    if 0 <= colon < text.len() {
        seq![text.subrange(0, colon)] + parts(text.subrange(colon + 1, text.len() as int))
    } else {
        seq![text]
    }
}

/// Whether `r` is what the text says: the six bytes that its six parts
/// write, or why it is no address.
pub open spec fn is_mac_of(text: Seq<u8>, r: Result<[u8; 6], MacError>) -> bool {
    let parts = parts(text);
    match r {
        Ok(mac) => parts.len() == 6 && forall|i: int|
            0 <= i < 6 ==> part_value(#[trigger] parts[i]) == Some(mac@[i]),
        Err(MacError::WrongLength) => parts.len() != 6,
        Err(MacError::InvalidPart(index)) => {
            &&& parts.len() == 6
            &&& index < 6
            &&& part_value(parts[index as int]).is_none()
            &&& forall|i: int| 0 <= i < index ==> part_value(#[trigger] parts[i]).is_some()
        },
    }
}

/// The first colon is where a colon stands with none before it, or at the
/// end where there is none at all.
proof fn lemma_first_colon(text: Seq<u8>, at: int)
    requires
        0 <= at <= text.len(),
        forall|i: int| 0 <= i < at ==> text[i] != 0x3a,
        at < text.len() ==> text[at] == 0x3a,
    ensures
        first_colon(text) == at,
    decreases at,
{
    if at > 0 {
        lemma_first_colon(text.drop_first(), at - 1);
    }
}

/// A number has at least the value of what any of its leading digits write,
/// and they are digits if all are.
proof fn lemma_leading_digits(digits: Seq<u8>, n: int)
    requires
        0 <= n <= digits.len(),
    ensures
        digits_value(digits) matches Some(value) ==> digits_value(digits.subrange(0, n))
            matches Some(leading) && leading <= value,
    decreases digits.len(),
{
    if n == digits.len() {
        assert(digits.subrange(0, n) =~= digits);
    } else {
        assert(digits.drop_last().subrange(0, n) =~= digits.subrange(0, n));
        lemma_leading_digits(digits.drop_last(), n);
    }
}

/// The byte that the part of `text` from `start` up to `end` writes.
fn parse_part(text: &[u8], start: usize, end: usize) -> (r: Option<u8>)
    requires
        start <= end <= text@.len(),
    ensures
        r == part_value(text@.subrange(start as int, end as int)),
{
    let ghost part = text@.subrange(start as int, end as int);
    let first: usize = if start < end && text[start] == 0x2b {
        start + 1
    } else {
        start
    };
    let ghost digits = text@.subrange(first as int, end as int);
    assert(digits =~= if part.len() > 0 && part[0] == 0x2b {
        part.drop_first()
    } else {
        part
    });
    if first == end {
        return None;
    }
    assert(part_value(part) == match digits_value(digits) {
        Some(value) => if value <= 255 {
            Some(value as u8)
        } else {
            None
        },
        None => None,
    });
    let mut value: u32 = 0;
    let mut i: usize = first;
    while i < end
        invariant
            start <= first <= i <= end <= text@.len(),
            digits == text@.subrange(first as int, end as int),
            part_value(text@.subrange(start as int, end as int)) == match digits_value(digits) {
                Some(value) => if value <= 255 {
                    Some(value as u8)
                } else {
                    None
                },
                None => None,
            },
            digits_value(digits.subrange(0, i - first)) == Some(value as nat),
            value <= 255,
        decreases end - i,
    {
        let b = text[i];
        let digit: u32 = if 0x30 <= b && b <= 0x39 {
            (b - 0x30) as u32
        } else if 0x61 <= b && b <= 0x66 {
            (b - 0x61 + 10) as u32
        } else if 0x41 <= b && b <= 0x46 {
            (b - 0x41 + 10) as u32
        } else {
            proof {
                let longer = digits.subrange(0, i - first + 1);
                assert(longer.last() == b);
                lemma_leading_digits(digits, i - first + 1);
            }
            return None;
        };
        proof {
            let longer = digits.subrange(0, i - first + 1);
            assert(longer.drop_last() =~= digits.subrange(0, i - first));
            assert(longer.last() == b);
        }
        value = value * 16 + digit;
        if value > 255 {
            proof {
                lemma_leading_digits(digits, i - first + 1);
            }
            return None;
        }
        i += 1;
    }
    assert(digits.subrange(0, i - first) =~= digits);
    Some(value as u8)
}

/// Where the parts of a text begin and end.
fn split_parts(text: &[u8]) -> (bounds: Vec<(usize, usize)>)
    ensures
        bounds@.len() == parts(text@).len(),
        forall|k: int|
            0 <= k < bounds@.len() ==> (#[trigger] bounds@[k]).0 <= bounds@[k].1 <= text@.len()
                && text@.subrange(bounds@[k].0 as int, bounds@[k].1 as int) == parts(text@)[k],
{
    let mut bounds: Vec<(usize, usize)> = Vec::new();
    let mut start: usize = 0;
    let mut i: usize = 0;
    let ghost mut found: Seq<Seq<u8>> = Seq::empty();
    assert(text@.subrange(0, text@.len() as int) =~= text@);
    while i < text.len()
        invariant
            start <= i <= text@.len(),
            forall|j: int| start <= j < i ==> text@[j] != 0x3a,
            parts(text@) == found + parts(text@.subrange(start as int, text@.len() as int)),
            bounds@.len() == found.len(),
            forall|k: int|
                0 <= k < bounds@.len() ==> (#[trigger] bounds@[k]).0 <= bounds@[k].1 <= text@.len()
                    && text@.subrange(bounds@[k].0 as int, bounds@[k].1 as int) == found[k],
        decreases text@.len() - i,
    {
        if text[i] == 0x3a {
            proof {
                let rest = text@.subrange(start as int, text@.len() as int);
                lemma_first_colon(rest, i - start);
                assert(rest.subrange(0, i - start) =~= text@.subrange(start as int, i as int));
                assert(rest.subrange(i - start + 1, rest.len() as int) =~= text@.subrange(
                    i + 1,
                    text@.len() as int,
                ));
                found = found.push(text@.subrange(start as int, i as int));
                assert(parts(text@) =~= found + parts(
                    text@.subrange(i + 1, text@.len() as int),
                ));
            }
            bounds.push((start, i));
            start = i + 1;
        }
        i += 1;
    }
    proof {
        let rest = text@.subrange(start as int, text@.len() as int);
        lemma_first_colon(rest, rest.len() as int);
        found = found.push(rest);
        assert(parts(text@) =~= found);
    }
    bounds.push((start, text.len()));
    bounds
}

/// Reads a hardware address from the bytes of a text.
pub fn parse_mac_bytes(text: &[u8]) -> (r: Result<[u8; 6], MacError>)
    ensures
        is_mac_of(text@, r),
{
    let bounds = split_parts(text);
    if bounds.len() != 6 {
        return Err(MacError::WrongLength);
    }
    let mut mac: [u8; 6] = [0; 6];
    let mut k: usize = 0;
    while k < 6
        invariant
            k <= 6,
            bounds@.len() == 6,
            parts(text@).len() == 6,
            forall|j: int|
                0 <= j < 6 ==> (#[trigger] bounds@[j]).0 <= bounds@[j].1 <= text@.len()
                    && text@.subrange(bounds@[j].0 as int, bounds@[j].1 as int) == parts(
                    text@,
                )[j],
            forall|j: int| 0 <= j < k ==> part_value(#[trigger] parts(text@)[j]) == Some(mac@[j]),
        decreases 6 - k,
    {
        let (start, end) = bounds[k];
        match parse_part(text, start, end) {
            Some(b) => {
                mac[k] = b;
            },
            None => {
                return Err(MacError::InvalidPart(k));
            },
        }
        k += 1;
    }
    Ok(mac)
}

/// Reads a hardware address: six numbers in base 16, between them colons.
pub fn parse_mac(mac: &str) -> (r: Result<[u8; 6], MacError>)
    ensures
        is_mac_of(mac.spec_bytes(), r),
{
    parse_mac_bytes(mac.as_bytes())
}

} // verus!
