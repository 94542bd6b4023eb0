//! The filter rule on license plates.
//!
//! A plate is read as sections separated by dashes. It passes the rule when
//! its first section holds an `A` and its second section holds a `0`. A
//! plate without a dash has no second section and is rejected as malformed,
//! whatever its first section holds.

use crate::error::PipelineError;
use crate::text::chars_of;
use vstd::prelude::*;

verus! {

/// The position of the first dash of `s` at or after `from`, or the length
/// of `s` where there is none.
pub open spec fn next_dash(s: Seq<char>, from: int) -> int
    decreases s.len() - from,
{
    if from >= s.len() {
        s.len() as int
    } else if s[from] == '-' {
        from
    } else {
        next_dash(s, from + 1)
    }
}

/// Where section `k` of `s` starts, counting sections from zero: just
/// behind the dash that ends the section before it.
pub open spec fn section_start(s: Seq<char>, k: nat) -> int
    decreases k,
{
    if k == 0 {
        0
    } else {
        next_dash(s, section_start(s, (k - 1) as nat)) + 1
    }
}

/// Whether `s` has a section `k`: it has one more section than dashes.
pub open spec fn has_section(s: Seq<char>, k: nat) -> bool {
    section_start(s, k) <= s.len()
}

/// Section `k` of `s`, where `s` has one: the characters from its start up
/// to the next dash or the end of `s`. It may be empty.
pub open spec fn section(s: Seq<char>, k: nat) -> Seq<char>
    recommends
        has_section(s, k),
{
    s.subrange(section_start(s, k), next_dash(s, section_start(s, k)))
}

/// The filter rule: the plate has a second section, an `A` in the first
/// and a `0` in the second.
pub open spec fn plate_matches(plate: Seq<char>) -> bool {
    &&& has_section(plate, 1)
    &&& section(plate, 0).contains('A')
    &&& section(plate, 1).contains('0')
}

/// What the rule says of a plate: malformed without a second section,
/// else whether it matches.
pub open spec fn plate_verdict(plate: Seq<char>) -> Result<bool, PipelineError> {
    if has_section(plate, 1) {
        Ok(plate_matches(plate))
    } else {
        Err(PipelineError::MalformedPlate)
    }
}

/// `next_dash` points at the first dash at or after `from`: it lies between
/// `from` and the end, no dash stands before it, and one stands at it unless
/// it is the end.
pub proof fn next_dash_is_first(s: Seq<char>, from: int)
    requires
        0 <= from <= s.len(),
    ensures
        from <= next_dash(s, from) <= s.len(),
        next_dash(s, from) < s.len() ==> s[next_dash(s, from)] == '-',
        forall|i: int| from <= i < next_dash(s, from) ==> s[i] != '-',
    decreases s.len() - from,
{
    if from < s.len() && s[from] != '-' {
        next_dash_is_first(s, from + 1);
    }
}

/// A plate has a second section exactly when it holds a dash. No section
/// holds a dash itself.
pub proof fn second_section_needs_dash(plate: Seq<char>)
    ensures
        has_section(plate, 1) <==> plate.contains('-'),
        !section(plate, 0).contains('-'),
        has_section(plate, 1) ==> !section(plate, 1).contains('-'),
{
    reveal_with_fuel(section_start, 2);
    next_dash_is_first(plate, 0);
    let first_end = next_dash(plate, 0);
    let first = section(plate, 0);
    assert(forall|i: int| 0 <= i < first.len() ==> first[i] != '-');
    if has_section(plate, 1) {
        next_dash_is_first(plate, first_end + 1);
        let second = section(plate, 1);
        assert(forall|i: int| 0 <= i < second.len() ==> second[i] != '-');
    }
}

fn find_dash(chars: &Vec<char>, from: usize) -> (at: usize)
    requires
        from <= chars.len(),
    ensures
        at == next_dash(chars@, from as int),
        from <= at <= chars.len(),
{
    let mut at: usize = from;
    while at < chars.len() && chars[at] != '-'
        invariant
            from <= at <= chars.len(),
            next_dash(chars@, from as int) == next_dash(chars@, at as int),
        decreases chars.len() - at,
    {
        at = at + 1;
    }
    at
}

fn range_holds(chars: &Vec<char>, from: usize, to: usize, wanted: char) -> (found: bool)
    requires
        from <= to <= chars.len(),
    ensures
        found == chars@.subrange(from as int, to as int).contains(wanted),
{
    let ghost range = chars@.subrange(from as int, to as int);
    let mut i: usize = from;
    while i < to
        invariant
            from <= i <= to <= chars.len(),
            range == chars@.subrange(from as int, to as int),
            forall|j: int| 0 <= j < i - from ==> range[j] != wanted,
        decreases to - i,
    {
        if chars[i] == wanted {
            assert(range[i - from] == wanted);
            return true;
        }
        i = i + 1;
    }
    false
}

/// Applies the filter rule to a plate.
///
/// The answer is `Ok(true)` for a plate that passes, `Ok(false)` for one
/// that has two sections and does not pass, and the error `MalformedPlate`
/// for one without a dash.
pub fn check_plate(plate: &str) -> (verdict: Result<bool, PipelineError>)
    ensures
        verdict == plate_verdict(plate@),
{
    let chars = chars_of(plate);
    let first_end = find_dash(&chars, 0);
    assert(section_start(plate@, 1) == first_end + 1) by {
        reveal_with_fuel(section_start, 2);
    }
    if first_end == chars.len() {
        return Err(PipelineError::MalformedPlate);
    }
    let second_start = first_end + 1;
    let second_end = find_dash(&chars, second_start);
    Ok(
        range_holds(&chars, 0, first_end, 'A') && range_holds(
            &chars,
            second_start,
            second_end,
            '0',
        ),
    )
}

} // verus!
