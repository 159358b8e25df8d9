//! Numbers, headers and lists of paths say what they were made of.

use vstd::prelude::*;

verus! {

/// The number that a digit stands for: those up to nine by the digits, the others by the letters
/// from `a` on.
pub open spec fn digit_value(ch: char) -> int {
    let code = ch as u32;
    if code < 97 {
        code - 48
    } else {
        code - 87
    }
}

/// The number that some digits stand for, the last one for the smallest part.
pub open spec fn number_in(digits: Seq<char>, base: int) -> int
    decreases digits.len(),
{
    if digits.len() == 0 {
        0
    } else {
        number_in(digits.drop_last(), base) * base + digit_value(digits.last())
    }
}

proof fn lemma_digit(value: nat)
    requires
        value < 16,
    ensures
        digit_value(crate::text::digit_char(value)) == value,
{
    assert(value == 0 || value == 1 || value == 2 || value == 3 || value == 4 || value == 5 || value
        == 6 || value == 7 || value == 8 || value == 9 || value == 10 || value == 11 || value == 12
        || value == 13 || value == 14 || value == 15);
}

/// A number is read back from its decimal notation. The notation has only digits up to nine, and
/// does not start with a zero unless it is one.
pub proof fn decimals_read_back(value: nat)
    ensures
        number_in(crate::text::decimal(value), 10) == value,
        crate::text::decimal(value).len() > 0,
        forall|at: int|
            0 <= at < crate::text::decimal(value).len() ==> 0 <= digit_value(
                #[trigger] crate::text::decimal(value)[at],
            ) < 10,
        value > 0 ==> digit_value(crate::text::decimal(value)[0]) > 0,
    decreases value,
{
    let text = crate::text::decimal(value);
    lemma_digit(value % 10);
    if value < 10 {
        lemma_digit(value);
        assert(text.drop_last() =~= Seq::<char>::empty());
        assert(number_in(text.drop_last(), 10) == 0);
    } else {
        let shorter = crate::text::decimal(value / 10);
        decimals_read_back(value / 10);
        assert(text.drop_last() =~= shorter);
        assert forall|at: int| 0 <= at < text.len() implies 0 <= digit_value(#[trigger] text[at])
            < 10 by {
            if at < shorter.len() {
                assert(text[at] == shorter[at]);
            }
        }
        assert(text[0] == shorter[0]);
    }
}

/// A number is read back from its hexadecimal notation, which has four digits behind `0x`.
pub proof fn hexadecimals_read_back(value: u16)
    ensures
        crate::text::hex4(value).len() == 6,
        crate::text::hex4(value)[0] == '0',
        crate::text::hex4(value)[1] == 'x',
        number_in(crate::text::hex4(value).skip(2), 16) == value,
{
    let digits = crate::text::hex4(value).skip(2);
    let one = (value as nat / 4096) % 16;
    let two = (value as nat / 256) % 16;
    let three = (value as nat / 16) % 16;
    let four = value as nat % 16;
    lemma_digit(one);
    lemma_digit(two);
    lemma_digit(three);
    lemma_digit(four);
    reveal_with_fuel(number_in, 5);
    assert(digits.len() == 4);
    assert(digits.drop_last().drop_last().drop_last().drop_last() =~= Seq::<char>::empty());
    assert(digits.last() == crate::text::digit_char(four));
    assert(digits.drop_last().last() == crate::text::digit_char(three));
    assert(digits.drop_last().drop_last().last() == crate::text::digit_char(two));
    assert(digits.drop_last().drop_last().drop_last().last() == crate::text::digit_char(one));
    assert(number_in(digits, 16) == ((one * 16 + two) * 16 + three) * 16 + four);
}

/// A frame is a message behind two bytes that give its length, the high one first.
pub proof fn headers_give_the_length(message: Seq<u8>)
    requires
        message.len() <= 65535,
    ensures
        crate::message::framed(message).len() == message.len() + 2,
        crate::message::framed(message)[0] * 256 + crate::message::framed(message)[1]
            == message.len(),
        forall|at: int|
            0 <= at < message.len() ==> #[trigger] message[at] == crate::message::framed(message)[at
                + 2],
        forall|header: Seq<u8>|
            header.len() == 2 ==> #[trigger] crate::message::length_in(header) == header[0] * 256
                + header[1],
{
    let frame = crate::message::framed(message);
    let length = message.len();
    assert(length / 256 < 256 && length % 256 < 256);
    assert((length / 256) * 256 + length % 256 == length);
    assert forall|at: int| 0 <= at < message.len() implies #[trigger] message[at] == frame[at + 2] by {
    }
}

/// A path that is added to a list is in it, unless one with the same components is there already:
/// then the list stays. The paths that were in it stay in it as they are, and nothing else is.
pub proof fn paths_are_added_once(paths: Seq<Seq<u8>>, path: Seq<u8>, other: Seq<u8>)
    ensures
        ({
            let longer = crate::pathset::with_path(paths, path);
            let there = exists|at: int|
                0 <= at < paths.len() && crate::path::components_of(#[trigger] paths[at])
                    == crate::path::components_of(path);
            &&& longer.contains(other) ==> paths.contains(other) || other == path
            &&& paths.contains(other) ==> longer.contains(other)
            &&& crate::pathset::paths_ascend(paths) ==> longer.len() == if there {
                paths.len()
            } else {
                paths.len() + 1
            }
            &&& !there ==> longer.contains(path)
        }),
    decreases paths.len(),
{
    let longer = crate::pathset::with_path(paths, path);
    let new = crate::path::components_of(path);
    if paths.len() == 0 {
        assert(longer[0] == path);
    } else if crate::path::components_of(paths[0]) == new {
    } else if crate::path::path_before(path, paths[0]) {
        assert(longer[0] == path);
        assert forall|at: int| 0 <= at < paths.len() implies longer[at + 1] == #[trigger] paths[at] by {
        }
        if paths.contains(other) {
            let at = choose|at: int| 0 <= at < paths.len() && paths[at] == other;
            assert(longer[at + 1] == other);
        }
        if longer.contains(other) {
            let at = choose|at: int| 0 <= at < longer.len() && longer[at] == other;
            if at > 0 {
                assert(paths[at - 1] == other);
            }
        }
        if crate::pathset::paths_ascend(paths) {
            assert forall|at: int| 0 <= at < paths.len() implies crate::path::components_of(
                #[trigger] paths[at],
            ) != new by {
                let first = crate::path::components_of(paths[0]);
                crate::path::lemma_components_order(new, first, new);
                if at > 0 {
                    assert(crate::path::path_before(paths[0], paths[at]));
                    crate::path::lemma_components_order(new, first, crate::path::components_of(paths[at]));
                    crate::path::lemma_components_order(new, new, new);
                }
            }
        }
    } else {
        let rest = paths.drop_first();
        let tail = crate::pathset::with_path(rest, path);
        paths_are_added_once(rest, path, other);
        assert(longer[0] == paths[0]);
        assert forall|at: int| 0 <= at < tail.len() implies longer[at + 1] == #[trigger] tail[at] by {}
        if paths.contains(other) {
            let at = choose|at: int| 0 <= at < paths.len() && paths[at] == other;
            if at > 0 {
                assert(rest[at - 1] == other);
                let to = choose|to: int| 0 <= to < tail.len() && tail[to] == other;
                assert(longer[to + 1] == other);
            }
        }
        if longer.contains(other) {
            let at = choose|at: int| 0 <= at < longer.len() && longer[at] == other;
            if at > 0 {
                assert(tail[at - 1] == other);
                if rest.contains(other) {
                    let to = choose|to: int| 0 <= to < rest.len() && rest[to] == other;
                    assert(paths[to + 1] == other);
                }
            } else {
                assert(paths[0] == other);
            }
        }
        if tail.contains(path) {
            let to = choose|to: int| 0 <= to < tail.len() && tail[to] == path;
            assert(longer[to + 1] == path);
        }
        if exists|at: int|
            0 <= at < rest.len() && crate::path::components_of(#[trigger] rest[at]) == new {
            let at = choose|at: int|
                0 <= at < rest.len() && crate::path::components_of(#[trigger] rest[at]) == new;
            assert(crate::path::components_of(paths[at + 1]) == new);
        }
        if exists|at: int|
            0 <= at < paths.len() && crate::path::components_of(#[trigger] paths[at]) == new {
            let at = choose|at: int|
                0 <= at < paths.len() && crate::path::components_of(#[trigger] paths[at]) == new;
            assert(crate::path::components_of(rest[at - 1]) == new);
        }
        if crate::pathset::paths_ascend(paths) {
            assert forall|left: int, right: int|
                0 <= left < right < rest.len() implies crate::path::path_before(
                #[trigger] rest[left],
                #[trigger] rest[right],
            ) by {
                assert(crate::path::path_before(paths[left + 1], paths[right + 1]));
            }
        }
    }
}

} // verus!
