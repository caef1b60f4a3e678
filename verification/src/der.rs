//! How deeply the elements of DER bytes are nested.
use crate::natural::number;
use vstd::prelude::*;
use vstd::slice::slice_subrange;

verus! {

/// The greatest depth of nested elements in bytes that are read. Elements are read by
/// recursion, so that the depth takes its toll on the stack.
pub const NESTING_LIMIT: usize = 128;

/// The place behind a tag whose number takes several bytes: behind the first byte from `i` on
/// whose top bit is clear.
pub open spec fn long_tag_end(bytes: Seq<u8>, i: int) -> Option<int>
    decreases bytes.len() - i,
{
    if i < 0 || i >= bytes.len() {
        None
    } else if bytes[i] < 128 {
        Some(i + 1)
    } else {
        long_tag_end(bytes, i + 1)
    }
}

/// The place behind the tag at the start of the bytes.
pub open spec fn tag_end(bytes: Seq<u8>) -> Option<int> {
    if bytes.len() == 0 {
        None
    } else if bytes[0] % 32 == 31 {
        long_tag_end(bytes, 1)
    } else {
        Some(1)
    }
}

/// Where the contents of the element at the start of the bytes begin and end. There is no such
/// place where the element is cut short, or where its length takes more than eight bytes.
pub open spec fn contents(bytes: Seq<u8>) -> Option<(int, int)> {
    match tag_end(bytes) {
        None => None,
        Some(at) => {
            let digits = if at < bytes.len() && bytes[at] >= 128 {
                bytes[at] - 128
            } else {
                0
            };
            let start = at + 1 + digits;
            if at >= bytes.len() || digits > 8 || start > bytes.len() {
                None
            } else {
                let length = if bytes[at] < 128 {
                    bytes[at] as nat
                } else {
                    number(bytes.subrange(at + 1, start))
                };
                if start + length > bytes.len() {
                    None
                } else {
                    Some((start, start + length))
                }
            }
        },
    }
}

/// Whether the contents of an element with this tag may hold elements: those of a sequence, of
/// a set, and of one with a class of its own that says so. A number of several bytes may
/// stand for any of these.
pub open spec fn holds_elements(tag: u8) -> bool {
    if tag < 64 {
        tag % 32 == 16 || tag % 32 == 17 || tag % 32 == 31
    } else {
        tag / 32 % 2 == 1
    }
}

/// Whether the contents of an element with this tag may be a bit string, which may hold
/// elements behind its first byte.
pub open spec fn holds_bits(tag: u8) -> bool {
    tag < 64 && (tag % 32 == 3 || tag % 32 == 31)
}

/// Whether elements are nested no deeper than the given depth.
pub open spec fn nested_within(bytes: Seq<u8>, depth: nat) -> bool
    decreases depth, bytes.len(),
{
    match contents(bytes) {
        None => true,
        Some((start, end)) => {
            let inner = bytes.subrange(start, end);
            &&& holds_elements(bytes[0]) ==> depth > 0 && nested_within(inner, (depth - 1) as nat)
            &&& holds_bits(bytes[0]) && inner.len() > 0 ==> depth > 0 && nested_within(
                inner.skip(1),
                (depth - 1) as nat,
            )
            &&& (0 < end <= bytes.len() ==> nested_within(bytes.skip(end), depth))
        },
    }
}

/// Whether bytes can be read as far as the nesting of their elements goes.
pub open spec fn readable(bytes: Seq<u8>) -> bool {
    nested_within(bytes, NESTING_LIMIT as nat)
}

proof fn lemma_tag_end(bytes: Seq<u8>, i: int)
    requires
        0 <= i,
    ensures
        long_tag_end(bytes, i) matches Some(end) ==> i < end <= bytes.len(),
    decreases bytes.len() - i,
{
    if i < bytes.len() && bytes[i] >= 128 {
        lemma_tag_end(bytes, i + 1);
    }
}

proof fn lemma_contents(bytes: Seq<u8>)
    ensures
        contents(bytes) matches Some((start, end)) ==> 1 < start <= end <= bytes.len(),
{
    lemma_tag_end(bytes, 1);
}

fn read_tag(bytes: &[u8]) -> (end: Option<usize>)
    ensures
        tag_end(bytes@) == (match end {
            Some(end) => Some(end as int),
            None => None,
        }),
{
    let total: usize = bytes.len();
    if total == 0 {
        return None;
    }
    if bytes[0] % 32 != 31 {
        return Some(1);
    }
    let mut i: usize = 1;
    while i < total && bytes[i] >= 128
        invariant
            1 <= i <= total,
            total == bytes@.len(),
            long_tag_end(bytes@, 1) == long_tag_end(bytes@, i as int),
        decreases total - i,
    {
        i = i + 1;
    }
    if i == total {
        None
    } else {
        Some(i + 1)
    }
}

/// What a number of this many bytes is less than.
spec fn bound(digits: nat) -> nat
    decreases digits,
{
    if digits == 0 {
        1
    } else {
        256 * bound((digits - 1) as nat)
    }
}

/// The number of the bytes from `start` to `end`, which are eight at most.
fn read_length(bytes: &[u8], start: usize, end: usize) -> (length: u64)
    requires
        start <= end <= bytes@.len(),
        end - start <= 8,
    ensures
        length == number(bytes@.subrange(start as int, end as int)),
{
    let mut length: u64 = 0;
    let mut i: usize = start;
    proof {
        reveal_with_fuel(bound, 9);
        assert(bytes@.subrange(start as int, start as int) =~= Seq::<u8>::empty());
    }
    while i < end
        invariant
            start <= i <= end <= bytes@.len(),
            end - start <= 8,
            length == number(bytes@.subrange(start as int, i as int)),
            length < bound((i - start) as nat),
        decreases end - i,
    {
        proof {
            reveal_with_fuel(bound, 9);
            let longer = bytes@.subrange(start as int, i + 1);
            assert(longer.drop_last() =~= bytes@.subrange(start as int, i as int));
        }
        length = length * 256 + bytes[i] as u64;
        i = i + 1;
    }
    length
}

fn read_contents(bytes: &[u8]) -> (place: Option<(usize, usize)>)
    ensures
        contents(bytes@) == (match place {
            Some((start, end)) => Some((start as int, end as int)),
            None => None,
        }),
{
    let total: usize = bytes.len();
    let at: usize = match read_tag(bytes) {
        Some(at) => at,
        None => return None,
    };
    if at >= total {
        return None;
    }
    let first: u8 = bytes[at];
    let digits: usize = if first >= 128 {
        (first - 128) as usize
    } else {
        0
    };
    if digits > 8 || digits > total - at - 1 {
        return None;
    }
    let start: usize = at + 1 + digits;
    let length: u64 = if first < 128 {
        first as u64
    } else {
        read_length(bytes, at + 1, start)
    };
    if length > (total - start) as u64 {
        return None;
    }
    Some((start, start + length as usize))
}

/// Tests whether elements are nested no deeper than the given depth.
fn is_nested_within(bytes: &[u8], depth: usize) -> (r: bool)
    ensures
        r == nested_within(bytes@, depth as nat),
    decreases depth,
{
    let total: usize = bytes.len();
    let mut at: usize = 0;
    assert(bytes@.skip(0) =~= bytes@);
    while at < total
        invariant
            at <= total,
            total == bytes@.len(),
            nested_within(bytes@, depth as nat) == nested_within(
                bytes@.skip(at as int),
                depth as nat,
            ),
        decreases total - at,
    {
        let rest: &[u8] = slice_subrange(bytes, at, total);
        assert(rest@ =~= bytes@.skip(at as int));
        proof {
            lemma_contents(rest@);
        }
        let (start, end) = match read_contents(rest) {
            Some(place) => place,
            None => return true,
        };
        let tag: u8 = rest[0];
        let inner: &[u8] = slice_subrange(rest, start, end);
        if tag >= 64 && tag / 32 % 2 == 1 || tag < 64 && (tag % 32 == 16 || tag % 32 == 17 || tag
            % 32 == 31) {
            if depth == 0 || !is_nested_within(inner, depth - 1) {
                return false;
            }
        }
        if tag < 64 && (tag % 32 == 3 || tag % 32 == 31) && inner.len() > 0 {
            let bits: &[u8] = slice_subrange(inner, 1, inner.len());
            assert(bits@ =~= inner@.skip(1));
            if depth == 0 || !is_nested_within(bits, depth - 1) {
                return false;
            }
        }
        assert(rest@.skip(end as int) =~= bytes@.skip(at + end));
        at = at + end;
    }
    assert(bytes@.skip(at as int) =~= Seq::<u8>::empty());
    true
}

/// Tests whether bytes can be read as far as the nesting of their elements goes.
pub fn is_readable(bytes: &[u8]) -> (r: bool)
    ensures
        r == readable(bytes@),
{
    is_nested_within(bytes, NESTING_LIMIT)
}

/// An element with a short length: its tag, the length and the contents.
pub open spec fn element(tag: u8, inner: Seq<u8>) -> Seq<u8> {
    seq![tag, inner.len() as u8] + inner
}

/// A sequence or a set is nested one level deeper than what it holds, a bit string than what
/// stands behind its first byte, and an integer, an object identifier or a null not at all.
pub proof fn sequences_nest_what_they_hold(tag: u8, inner: Seq<u8>, depth: nat)
    requires
        inner.len() < 128,
        tag == 0x30 || tag == 0x31 || tag == 0x03 || tag == 0x02 || tag == 0x05 || tag == 0x06,
    ensures
        tag == 0x30 || tag == 0x31 ==> (nested_within(element(tag, inner), depth) <==> depth > 0
            && nested_within(inner, (depth - 1) as nat)),
        tag == 0x03 ==> (nested_within(element(tag, inner), depth) <==> inner.len() == 0 || depth
            > 0 && nested_within(inner.skip(1), (depth - 1) as nat)),
        tag == 0x02 || tag == 0x05 || tag == 0x06 ==> nested_within(element(tag, inner), depth),
{
    let bytes = element(tag, inner);
    let end = bytes.len() as int;
    assert(bytes[0] == tag && bytes[1] == inner.len() as u8);
    assert(contents(bytes) == Some((2int, end)));
    assert(bytes.subrange(2, end) =~= inner);
    assert(bytes.skip(end) =~= Seq::<u8>::empty());
    assert(contents(bytes.skip(end)) is None);
    assert(nested_within(bytes.skip(end), depth));
}

/// What follows an element is as free to nest as the element itself.
pub proof fn elements_stand_side_by_side(tag: u8, inner: Seq<u8>, rest: Seq<u8>, depth: nat)
    requires
        inner.len() < 128,
        tag == 0x30 || tag == 0x31 || tag == 0x03 || tag == 0x02 || tag == 0x05 || tag == 0x06,
    ensures
        nested_within(element(tag, inner) + rest, depth) <==> nested_within(
            element(tag, inner),
            depth,
        ) && nested_within(rest, depth),
{
    let bytes = element(tag, inner);
    let all = bytes + rest;
    let end = bytes.len() as int;
    assert(bytes[0] == tag && bytes[1] == inner.len() as u8);
    assert(all[0] == tag && all[1] == inner.len() as u8);
    assert(contents(bytes) == Some((2int, end)));
    assert(contents(all) == Some((2int, end)));
    assert(bytes.subrange(2, end) =~= inner);
    assert(all.subrange(2, end) =~= inner);
    assert(all.skip(end) =~= rest);
    assert(bytes.skip(end) =~= Seq::<u8>::empty());
    assert(contents(bytes.skip(end)) is None);
    assert(nested_within(bytes.skip(end), depth));
}

/// An element whose length is written in several digits: its tag, their number, the digits and
/// the contents.
pub open spec fn long_element(tag: u8, digits: Seq<u8>, inner: Seq<u8>) -> Seq<u8> {
    seq![tag, (128 + digits.len()) as u8] + digits + inner
}

/// It makes no difference to the nesting how a length is written, with up to eight digits. A
/// length of more digits is not read, and neither is what follows it.
pub proof fn long_lengths_are_read(tag: u8, digits: Seq<u8>, inner: Seq<u8>, depth: nat)
    requires
        0 < digits.len() < 128,
        tag == 0x30 || tag == 0x31 || tag == 0x03 || tag == 0x02 || tag == 0x05 || tag == 0x06,
    ensures
        digits.len() > 8 ==> nested_within(long_element(tag, digits, inner), depth),
        digits.len() <= 8 && number(digits) == inner.len() ==> {
            let nested = nested_within(long_element(tag, digits, inner), depth);
            &&& tag == 0x30 || tag == 0x31 ==> (nested <==> depth > 0 && nested_within(
                inner,
                (depth - 1) as nat,
            ))
            &&& tag == 0x03 ==> (nested <==> inner.len() == 0 || depth > 0 && nested_within(
                inner.skip(1),
                (depth - 1) as nat,
            ))
            &&& tag == 0x02 || tag == 0x05 || tag == 0x06 ==> nested
        },
{
    let bytes = long_element(tag, digits, inner);
    let end = bytes.len() as int;
    let start = 2 + digits.len() as int;
    assert(bytes[0] == tag && bytes[1] == 128 + digits.len());
    if digits.len() > 8 {
        assert(contents(bytes) is None);
    } else if number(digits) == inner.len() {
        assert(bytes.subrange(2, start) =~= digits);
        assert(contents(bytes) == Some((start, end)));
        assert(bytes.subrange(start, end) =~= inner);
        assert(bytes.skip(end) =~= Seq::<u8>::empty());
        assert(contents(bytes.skip(end)) is None);
        assert(nested_within(bytes.skip(end), depth));
    }
}

/// Bytes are readable where elements are nested up to 128 deep.
pub proof fn readable_bytes_are_not_deep(bytes: Seq<u8>)
    ensures
        readable(bytes) <==> nested_within(bytes, 128),
{
}

} // verus!
