//! The address on which the relay listens, read from what `ipconfig` prints.
//!
//! `ipconfig` prints one line for each address of the machine. The relay listens on the
//! address of the last line that is marked as an IPv4 address; the address is what stands
//! on that line between the first colon and the second, without the white space around it.

use crate::connect_hook::{address_on_port, address_view, with_port};
use crate::text::{chars_of, contains, find, occurs, span, trim, trim_bounds};
use vstd::prelude::*;
use vstd::string::StrSliceExecFns;

verus! {

/// What marks a line as the line of an IPv4 address.
pub open spec fn marker() -> Seq<char> {
    "  IPv4 Address"@
}

/// The address on a line: what stands between its first colon and its second, trimmed, if
/// the line is marked and has a colon.
pub open spec fn address_on(line: Seq<char>) -> Option<Seq<char>> {
    let colon = span(line, ':');
    if contains(line, marker()) && colon < line.len() {
        let rest = line.skip(colon + 1);
        Some(trim(rest.take(span(rest, ':'))))
    } else {
        None
    }
}

/// The address on the last line of `output` that has one.
pub open spec fn last_address(output: Seq<char>) -> Option<Seq<char>>
    decreases output.len(),
{
    let end = span(output, '\n');
    let here = address_on(output.take(end));
    if 0 <= end < output.len() {
        match last_address(output.skip(end + 1)) {
            Some(address) => Some(address),
            None => here,
        }
    } else {
        here
    }
}

/// The address on which the relay listens: the last address that `ipconfig` printed, and the
/// relay's port.
pub open spec fn listen_address_of(output: Seq<char>) -> Option<Seq<char>> {
    match last_address(output) {
        Some(address) => Some(with_port(address)),
        None => None,
    }
}

/// The characters between two indices, if there are two.
pub open spec fn between(chars: Seq<char>, bounds: Option<(usize, usize)>) -> Option<Seq<char>> {
    match bounds {
        Some((start, end)) => Some(chars.subrange(start as int, end as int)),
        None => None,
    }
}

/// The later of two finds, if there is a later one.
pub open spec fn later(found: Option<Seq<char>>, before: Option<Seq<char>>) -> Option<Seq<char>> {
    match found {
        Some(address) => Some(address),
        None => before,
    }
}

/// Finds the address on the line that runs from index `from` up to index `end`.
fn address_bounds(chars: &Vec<char>, from: usize, end: usize, mark: &Vec<char>) -> (bounds: Option<
    (usize, usize),
>)
    requires
        from <= end <= chars@.len(),
        mark@ == marker(),
    ensures
        bounds matches Some((start, stop)) ==> from <= start <= stop <= end,
        between(chars@, bounds) == address_on(chars@.subrange(from as int, end as int)),
{
    let ghost line = chars@.subrange(from as int, end as int);
    let colon = find(chars, from, end, ':');
    if colon < end && occurs(chars, from, end, mark) {
        let second = find(chars, colon + 1, end, ':');
        let bounds = trim_bounds(chars, colon + 1, second);
        proof {
            let rest = line.skip(colon - from + 1);
            assert(rest =~= chars@.subrange(colon + 1, end as int));
            assert(rest.take(span(rest, ':')) =~= chars@.subrange(colon + 1, second as int));
        }
        Some(bounds)
    } else {
        None
    }
}

/// Reads from what `ipconfig` printed the address on which the relay listens; there is none
/// if no line holds an IPv4 address.
pub fn listen_address(output: &str) -> (address: Option<String>)
    ensures
        address_view(address) == listen_address_of(output@),
{
    let chars = chars_of(output);
    let mark = chars_of("  IPv4 Address");
    let len = chars.len();
    let mut from: usize = 0;
    let mut best: Option<(usize, usize)> = None;
    proof {
        assert(chars@.skip(0) =~= chars@);
    }
    loop
        invariant
            from <= len == chars@.len(),
            mark@ == marker(),
            best matches Some((start, stop)) ==> start <= stop <= len,
            last_address(chars@) == later(
                last_address(chars@.skip(from as int)),
                between(chars@, best),
            ),
        ensures
            best matches Some((start, stop)) ==> start <= stop <= len == chars@.len(),
            last_address(chars@) == between(chars@, best),
        decreases len - from,
    {
        let ghost rest = chars@.skip(from as int);
        let end = find(&chars, from, len, '\n');
        proof {
            assert(chars@.subrange(from as int, len as int) =~= rest);
            assert(rest.take(end - from) =~= chars@.subrange(from as int, end as int));
            if end < len {
                assert(rest.skip(end - from + 1) =~= chars@.skip(end + 1));
            }
        }
        match address_bounds(&chars, from, end, &mark) {
            Some(bounds) => {
                best = Some(bounds);
            },
            None => {},
        }
        if end == len {
            break ;
        }
        from = end + 1;
    }
    match best {
        Some((start, stop)) => {
            proof {
                assert(chars@ == output@);
            }
            Some(address_on_port(output.substring_char(start, stop)))
        },
        None => None,
    }
}

} // verus!
