//! The text form of a subnet identifier: `/r`, the root network in decimal
//! digits, and then for each actor on the path a `/` and its address.

use crate::address::{AddressModel, NativeAddress};
use crate::address_text::{native_address_of_text, parse_native_address};
use crate::subnet::{SubnetID, SubnetModel};
use vstd::prelude::*;
use vstd::string::*;

verus! {

/// Whether the character is one of the ten decimal digits.
pub open spec fn is_digit(c: char) -> bool {
    48 <= c as u32 <= 57
}

/// The number that a decimal digit stands for.
pub open spec fn digit_value(c: char) -> nat {
    if is_digit(c) {
        (c as u32 - 48) as nat
    } else {
        0
    }
}

/// The number that decimal digits spell.
pub open spec fn decimal_value(digits: Seq<char>) -> nat
    decreases digits.len(),
{
    if digits.len() == 0 {
        0
    } else {
        decimal_value(digits.drop_last()) * 10 + digit_value(digits.last())
    }
}

/// The number that a text spells in decimal: it has at least one character,
/// only digits, and spells no more than the greatest 64-bit number.
pub open spec fn decimal_of(text: Seq<char>) -> Option<u64> {
    if text.len() > 0 && (forall|i: int| 0 <= i < text.len() ==> is_digit(#[trigger] text[i]))
        && decimal_value(text) <= u64::MAX {
        Some(decimal_value(text) as u64)
    } else {
        None
    }
}

/// Where the segment that starts at `from` ends: at the next `/`, or at the
/// end of the text.
pub open spec fn segment_end(text: Seq<char>, from: int) -> int
    decreases text.len() - from,
{
    if from >= text.len() || text[from] == '/' {
        from
    } else {
        segment_end(text, from + 1)
    }
}

/// How many segments follow from `at`, which is the end of the text or the
/// place of a `/`.
pub open spec fn segments_from(text: Seq<char>, at: int) -> nat
    decreases text.len() - at,
{
    if at >= text.len() {
        0
    } else {
        let stop = segment_end(text, at + 1);
        if at < stop <= text.len() {
            1 + segments_from(text, stop)
        } else {
            0
        }
    }
}

/// The root network that a text names: the text starts with `/r`, and the
/// characters from there to the next `/` or the end spell the number.
pub open spec fn root_of_text(text: Seq<char>) -> Option<u64> {
    if text.len() >= 2 && text[0] == '/' && text[1] == 'r' {
        decimal_of(text.subrange(2, segment_end(text, 2)))
    } else {
        None
    }
}

/// The segments that follow from `at`, which is the end of the text or the
/// place of a `/`: each is the text between one `/` and the next, or the end.
pub open spec fn path_segments(text: Seq<char>, at: int) -> Seq<Seq<char>>
    decreases text.len() - at,
{
    if at >= text.len() {
        Seq::empty()
    } else {
        let stop = segment_end(text, at + 1);
        if at < stop <= text.len() {
            seq![text.subrange(at + 1, stop)] + path_segments(text, stop)
        } else {
            Seq::empty()
        }
    }
}

/// The addresses that the segments spell, where each of them spells one.
pub open spec fn addresses_of_segments(segments: Seq<Seq<char>>) -> Option<Seq<AddressModel>> {
    if forall|i: int|
        0 <= i < segments.len() ==> native_address_of_text(#[trigger] segments[i]) is Some {
        Some(Seq::new(segments.len(), |i: int| native_address_of_text(segments[i])->Some_0))
    } else {
        None
    }
}

/// The subnet that a text spells: the root that it names, and the addresses
/// that the segments after the root spell, in their order. It spells none
/// where the root is unreadable or a segment spells no address.
pub open spec fn subnet_of_text(text: Seq<char>) -> Option<SubnetModel> {
    match root_of_text(text) {
        None => None,
        Some(root) => match addresses_of_segments(path_segments(text, segment_end(text, 2))) {
            None => None,
            Some(children) => Some(SubnetModel { root, children }),
        },
    }
}

/// The subnet that the texts of a parent and of an actor spell: the actor's
/// address below the parent's path.
pub open spec fn subnet_of_map(parent: Seq<char>, actor: Seq<char>) -> Option<SubnetModel> {
    match subnet_of_text(parent) {
        None => None,
        Some(above) => match native_address_of_text(actor) {
            None => None,
            Some(address) => Some(
                SubnetModel { root: above.root, children: above.children.push(address) },
            ),
        },
    }
}

proof fn lemma_segment_end_in_range(text: Seq<char>, from: int)
    requires
        0 <= from <= text.len(),
    ensures
        from <= segment_end(text, from) <= text.len(),
        segment_end(text, from) < text.len() ==> text[segment_end(text, from)] == '/',
    decreases text.len() - from,
{
    if from < text.len() && text[from] != '/' {
        lemma_segment_end_in_range(text, from + 1);
    }
}

proof fn lemma_decimal_prefix(digits: Seq<char>, k: int)
    requires
        0 <= k <= digits.len(),
    ensures
        decimal_value(digits.subrange(0, k)) <= decimal_value(digits),
    decreases digits.len(),
{
    if k == digits.len() {
        assert(digits.subrange(0, k) =~= digits);
    } else {
        lemma_decimal_prefix(digits.drop_last(), k);
        assert(digits.drop_last().subrange(0, k) =~= digits.subrange(0, k));
    }
}

/// The number that a text spells in decimal, where it has at least one
/// character, only digits, and spells no more than `limit`.
pub open spec fn decimal_up_to(text: Seq<char>, limit: u128) -> Option<u128> {
    if text.len() > 0 && (forall|i: int| 0 <= i < text.len() ==> is_digit(#[trigger] text[i]))
        && decimal_value(text) <= limit {
        Some(decimal_value(text) as u128)
    } else {
        None
    }
}

/// The number that a text spells in decimal, if it spells one that is no
/// more than `limit`.
pub fn parse_decimal_up_to(text: &str, limit: u128) -> (number: Option<u128>)
    ensures
        number == decimal_up_to(text@, limit),
{
    let len = text.unicode_len();
    if len == 0 {
        return None;
    }
    let mut value: u128 = 0;
    let mut i: usize = 0;
    while i < len
        invariant
            i <= len,
            len == text@.len(),
            forall|j: int| 0 <= j < i ==> is_digit(#[trigger] text@[j]),
            value as nat == decimal_value(text@.subrange(0, i as int)),
            value <= limit,
        decreases len - i,
    {
        let c = text.get_char(i);
        let code: u32 = c as u32;
        if code < 48 || code > 57 {
            return None;
        }
        let digit: u128 = (code - 48) as u128;
        proof {
            assert(text@.subrange(0, i + 1).drop_last() =~= text@.subrange(0, i as int));
            assert(text@.subrange(0, i + 1).last() == c);
            lemma_decimal_prefix(text@, i + 1);
        }
        if digit > limit || value > (limit - digit) / 10 {
            return None;
        }
        value = value * 10 + digit;
        i += 1;
    }
    proof {
        assert(text@.subrange(0, len as int) =~= text@);
    }
    Some(value)
}

/// The number that a text spells in decimal, if it spells one.
pub fn parse_decimal(text: &str) -> (number: Option<u64>)
    ensures
        number == decimal_of(text@),
{
    match parse_decimal_up_to(text, 0xffff_ffff_ffff_ffff) {
        Some(value) => Some(value as u64),
        None => None,
    }
}

/// Number of the smallest units in one whole token.
pub const UNITS_PER_TOKEN: u128 = 1_000_000_000_000_000_000;

/// The amount, in the smallest unit, that a text spells in decimal.
pub fn token_amount_from_text(text: &str) -> (amount: Option<u128>)
    ensures
        amount == decimal_up_to(text@, u128::MAX),
{
    parse_decimal_up_to(text, u128::MAX)
}

/// The amount, in the smallest unit, of a number of whole tokens; none where
/// it is more than the greatest amount that can be held.
pub fn whole_tokens(tokens: u128) -> (amount: Option<u128>)
    ensures
        tokens * UNITS_PER_TOKEN <= u128::MAX ==> amount == Some(
            (tokens * UNITS_PER_TOKEN) as u128,
        ),
        tokens * UNITS_PER_TOKEN > u128::MAX ==> amount is None,
{
    if tokens > u128::MAX / UNITS_PER_TOKEN {
        None
    } else {
        Some(tokens * UNITS_PER_TOKEN)
    }
}

/// Where the segment that starts at `from` ends.
pub fn find_segment_end(text: &str, from: usize) -> (stop: usize)
    requires
        from <= text@.len(),
    ensures
        stop == segment_end(text@, from as int),
        from <= stop <= text@.len(),
{
    let len = text.unicode_len();
    let mut i: usize = from;
    proof {
        lemma_segment_end_in_range(text@, from as int);
    }
    while i < len && text.get_char(i) != '/'
        invariant
            from <= i <= len,
            len == text@.len(),
            segment_end(text@, i as int) == segment_end(text@, from as int),
        decreases len - i,
    {
        i += 1;
    }
    i
}

/// The subnet with this root and the addresses that were read for its path,
/// in their order; none where one of them was not read.
pub fn subnet_from_readings(root: u64, readings: &Vec<Option<NativeAddress>>) -> (subnet: Option<
    SubnetID,
>)
    ensures
        subnet is Some == (forall|i: int|
            0 <= i < readings@.len() ==> (#[trigger] readings@[i]) is Some),
        subnet matches Some(id) ==> id.root == root && id.children@.len() == readings@.len() && (
        forall|i: int|
            0 <= i < readings@.len() ==> (#[trigger] id.children@[i])@ == readings@[i]->Some_0@),
{
    let mut children: Vec<NativeAddress> = Vec::new();
    let mut i: usize = 0;
    while i < readings.len()
        invariant
            i <= readings.len(),
            children@.len() == i,
            forall|j: int| 0 <= j < i ==> (#[trigger] readings@[j]) is Some,
            forall|j: int| 0 <= j < i ==> (#[trigger] children@[j])@ == readings@[j]->Some_0@,
        decreases readings.len() - i,
    {
        match &readings[i] {
            Some(address) => {
                children.push(address.duplicate());
            },
            None => {
                proof {
                    assert(readings@[i as int] is None);
                }
                return None;
            },
        }
        i += 1;
    }
    Some(SubnetID { root, children })
}

/// The subnet identifier that a text names. The root is read here; each
/// address on the path is read as the text form of a native address. The
/// text names no subnet where the root is unreadable, where a segment of the
/// path is empty, or where an address is not read. Whether an address is
/// read depends on the network that the process is set to; a subnet that is
/// named is the one that the text spells.
pub fn subnet_from_text(text: &str) -> (subnet: Option<SubnetID>)
    ensures
        root_of_text(text@) is None ==> subnet is None,
        subnet matches Some(id) ==> subnet_of_text(text@) == Some(id@),
        subnet matches Some(id) ==> root_of_text(text@) == Some(id.root) && id.children@.len()
            == segments_from(text@, segment_end(text@, 2)) && (forall|i: int|
            0 <= i < id.children@.len() ==> (#[trigger] id.children@[i]).wf()),
        segment_end(text@, 2) >= text@.len() ==> (subnet matches Some(id) ==> id.children@.len()
            == 0),
        segment_end(text@, 2) >= text@.len() ==> subnet is Some == root_of_text(text@) is Some,
{
    let len = text.unicode_len();
    if len < 2 || text.get_char(0) != '/' || text.get_char(1) != 'r' {
        return None;
    }
    let root_end = find_segment_end(text, 2);
    let root = match parse_decimal(text.substring_char(2, root_end)) {
        Some(root) => root,
        None => {
            return None;
        },
    };
    let mut readings: Vec<Option<NativeAddress>> = Vec::new();
    let mut at: usize = root_end;
    let ghost segments = path_segments(text@, root_end as int);
    let ghost seen: Seq<Seq<char>> = Seq::empty();
    proof {
        lemma_segment_end_in_range(text@, 2);
        assert(seen + path_segments(text@, at as int) =~= segments);
    }
    while at < len
        invariant
            root_end <= at <= len,
            len == text@.len(),
            root_end == segment_end(text@, 2),
            root_of_text(text@) == Some(root),
            at < len ==> text@[at as int] == '/',
            readings@.len() + segments_from(text@, at as int) == segments_from(
                text@,
                root_end as int,
            ),
            forall|i: int|
                0 <= i < readings@.len() ==> ((#[trigger] readings@[i]) matches Some(address)
                    ==> address.wf()),
            segments == path_segments(text@, root_end as int),
            seen.len() == readings@.len(),
            seen + path_segments(text@, at as int) == segments,
            forall|i: int|
                0 <= i < readings@.len() ==> ((#[trigger] readings@[i]) matches Some(address)
                    ==> native_address_of_text(seen[i]) == Some(address@)),
        decreases len - at,
    {
        let stop = find_segment_end(text, at + 1);
        proof {
            lemma_segment_end_in_range(text@, at + 1);
        }
        let ghost segment = text@.subrange(at + 1, stop as int);
        readings.push(parse_native_address(text.substring_char(at + 1, stop)));
        proof {
            assert(path_segments(text@, at as int) == seq![segment] + path_segments(
                text@,
                stop as int,
            ));
            assert(seen.push(segment) + path_segments(text@, stop as int) =~= seen + (seq![segment]
                + path_segments(text@, stop as int)));
            seen = seen.push(segment);
        }
        at = stop;
    }
    let subnet = subnet_from_readings(root, &readings);
    proof {
        assert(path_segments(text@, at as int) =~= Seq::<Seq<char>>::empty());
        assert(seen =~= segments);
        if subnet is Some {
            let id = subnet->Some_0;
            assert forall|i: int| 0 <= i < segments.len() implies native_address_of_text(
                #[trigger] segments[i],
            ) == Some(id.children@[i]@) by {
                assert(readings@[i] is Some);
                assert(id.children@[i]@ == readings@[i]->Some_0@);
            }
            assert(addresses_of_segments(segments)->Some_0 =~= id@.children);
        }
    }
    subnet
}

/// The subnet that an actor runs below a parent, both given in text; none
/// where the parent names no subnet or the actor's address is not read.
/// Whether an address is read depends on the network that the process is
/// set to; a subnet that is named is the one that the two texts spell.
pub fn subnet_from_map(parent: &str, actor: &str) -> (subnet: Option<SubnetID>)
    ensures
        root_of_text(parent@) is None ==> subnet is None,
        subnet matches Some(id) ==> subnet_of_map(parent@, actor@) == Some(id@),
        subnet matches Some(id) ==> root_of_text(parent@) == Some(id.root) && id.children@.len()
            == segments_from(parent@, segment_end(parent@, 2)) + 1,
{
    let above = subnet_from_text(parent);
    let address = parse_native_address(actor);
    let ghost up = above;
    let subnet = subnet_below(above, address);
    proof {
        if subnet is Some {
            let id = subnet->Some_0;
            assert(id@.children.len() == id.children@.len());
            assert(up->Some_0@.children.len() == up->Some_0.children@.len());
        }
    }
    subnet
}

/// The subnet that the actor runs below the parent; none where either is
/// missing.
pub fn subnet_below(parent: Option<SubnetID>, actor: Option<NativeAddress>) -> (subnet: Option<
    SubnetID,
>)
    ensures
        subnet is Some == (parent is Some && actor is Some),
        subnet matches Some(id) ==> id@ == (SubnetModel {
            root: parent->Some_0@.root,
            children: parent->Some_0@.children.push(actor->Some_0@),
        }),
{
    match parent {
        Some(above) => match actor {
            Some(address) => Some(SubnetID::new_child(&above, address)),
            None => None,
        },
        None => None,
    }
}

} // verus!
