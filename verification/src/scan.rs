//! Scans of byte strings for a pattern, in chunks between which the limits of
//! the run are held.

use crate::heap::check_memory_time_every;
use crate::resource_checks::{max_replacements, may_time_out, memory_excess, replaced_size, ResourceError, ResourceTracker};
use vstd::prelude::*;
use vstd::slice::{slice_subrange, slice_to_vec};

verus! {

/// Bytes scanned between two looks at the clock.
pub const SCAN_CHUNK: usize = 65536;

/// The needle stands at this place of the haystack.
pub open spec fn occurs_at(haystack: Seq<u8>, needle: Seq<u8>, at: int) -> bool {
    0 <= at && at + needle.len() <= haystack.len() && haystack.subrange(at, at + needle.len()) == needle
}

/// The first place at or behind `from` where the needle stands.
pub open spec fn first_from(haystack: Seq<u8>, needle: Seq<u8>, from: int) -> Option<int>
    decreases haystack.len() + 1 - from,
{
    if from + needle.len() > haystack.len() {
        None
    } else if occurs_at(haystack, needle, from) {
        Some(from)
    } else {
        first_from(haystack, needle, from + 1)
    }
}

/// The last place at which the needle stands so that it ends at or before
/// `end`.
pub open spec fn last_before(haystack: Seq<u8>, needle: Seq<u8>, end: int) -> Option<int>
    decreases end,
{
    if end < needle.len() || end <= 0 {
        None
    } else if occurs_at(haystack, needle, end - needle.len()) {
        Some(end - needle.len())
    } else {
        last_before(haystack, needle, end - 1)
    }
}

/// Calls `memmem::Finder::find` of memchr: the first place of the haystack
/// where the needle stands, or nothing where it stands nowhere.
#[verifier::external_body]
fn find_first(needle: &[u8], haystack: &[u8]) -> (place: Option<usize>)
    ensures
        match place {
            Some(at) => occurs_at(haystack@, needle@, at as int) && forall|j: int|
                0 <= j < at ==> !occurs_at(haystack@, needle@, j),
            None => forall|j: int| !occurs_at(haystack@, needle@, j),
        },
{
    memchr::memmem::Finder::new(needle).find(haystack)
}

/// Calls `memmem::FinderRev::rfind` of memchr: the last place of the haystack
/// where the needle stands, or nothing where it stands nowhere.
#[verifier::external_body]
fn find_last(needle: &[u8], haystack: &[u8]) -> (place: Option<usize>)
    ensures
        match place {
            Some(at) => occurs_at(haystack@, needle@, at as int) && forall|j: int|
                j > at ==> !occurs_at(haystack@, needle@, j),
            None => forall|j: int| !occurs_at(haystack@, needle@, j),
        },
{
    memchr::memmem::FinderRev::new(needle).rfind(haystack)
}

/// What `first_from` finds is the first place.
pub proof fn lemma_first_from(haystack: Seq<u8>, needle: Seq<u8>, from: int)
    requires
        0 <= from,
    ensures
        match first_from(haystack, needle, from) {
            Some(at) => from <= at && occurs_at(haystack, needle, at) && forall|j: int|
                from <= j < at ==> !occurs_at(haystack, needle, j),
            None => forall|j: int| from <= j ==> !occurs_at(haystack, needle, j),
        },
    decreases haystack.len() + 1 - from,
{
    if from + needle.len() > haystack.len() {
    } else if occurs_at(haystack, needle, from) {
    } else {
        lemma_first_from(haystack, needle, from + 1);
    }
}

/// The first place is what `first_from` finds.
pub proof fn lemma_is_first(haystack: Seq<u8>, needle: Seq<u8>, from: int, place: Option<int>)
    requires
        0 <= from,
        match place {
            Some(at) => from <= at && occurs_at(haystack, needle, at) && forall|j: int|
                from <= j < at ==> !occurs_at(haystack, needle, j),
            None => forall|j: int| from <= j ==> !occurs_at(haystack, needle, j),
        },
    ensures
        first_from(haystack, needle, from) == place,
{
    lemma_first_from(haystack, needle, from);
    match (first_from(haystack, needle, from), place) {
        (Some(a), Some(b)) => {
            if a < b {
                assert(!occurs_at(haystack, needle, a));
            }
            if b < a {
                assert(!occurs_at(haystack, needle, b));
            }
        },
        (Some(a), None) => {
            assert(!occurs_at(haystack, needle, a));
        },
        (None, Some(b)) => {
            assert(!occurs_at(haystack, needle, b));
        },
        (None, None) => {},
    }
}

/// What `last_before` finds is the last place that ends in time.
pub proof fn lemma_last_before(haystack: Seq<u8>, needle: Seq<u8>, end: int)
    requires
        0 < needle.len(),
        0 <= end <= haystack.len(),
    ensures
        match last_before(haystack, needle, end) {
            Some(at) => at + needle.len() <= end && occurs_at(haystack, needle, at) && forall|j: int|
                at < j && j + needle.len() <= end ==> !occurs_at(haystack, needle, j),
            None => forall|j: int| j + needle.len() <= end ==> !occurs_at(haystack, needle, j),
        },
    decreases end,
{
    if end < needle.len() || end <= 0 {
    } else if occurs_at(haystack, needle, end - needle.len()) {
    } else {
        lemma_last_before(haystack, needle, end - 1);
        assert forall|j: int| j + needle.len() <= end && occurs_at(haystack, needle, j) implies j + needle.len() <= end
            - 1 by {
            if j + needle.len() == end {
                assert(j == end - needle.len());
            }
        }
    }
}

/// The last place is what `last_before` finds.
pub proof fn lemma_is_last(haystack: Seq<u8>, needle: Seq<u8>, end: int, place: Option<int>)
    requires
        0 < needle.len(),
        0 <= end <= haystack.len(),
        match place {
            Some(at) => at + needle.len() <= end && occurs_at(haystack, needle, at) && forall|j: int|
                at < j && j + needle.len() <= end ==> !occurs_at(haystack, needle, j),
            None => forall|j: int| j + needle.len() <= end ==> !occurs_at(haystack, needle, j),
        },
    ensures
        last_before(haystack, needle, end) == place,
{
    lemma_last_before(haystack, needle, end);
    match (last_before(haystack, needle, end), place) {
        (Some(a), Some(b)) => {
            if a < b {
                assert(!occurs_at(haystack, needle, b));
            }
            if b < a {
                assert(!occurs_at(haystack, needle, a));
            }
        },
        (Some(a), None) => {
            assert(!occurs_at(haystack, needle, a));
        },
        (None, Some(b)) => {
            assert(!occurs_at(haystack, needle, b));
        },
        (None, None) => {},
    }
}

/// A place inside a part of the haystack is one of the haystack.
pub proof fn lemma_occurs_in_part(haystack: Seq<u8>, needle: Seq<u8>, start: int, end: int, at: int)
    requires
        0 <= start <= end <= haystack.len(),
        0 <= at,
        start + at + needle.len() <= end,
    ensures
        occurs_at(haystack.subrange(start, end), needle, at) == occurs_at(haystack, needle, start + at),
{
    assert(haystack.subrange(start, end).subrange(at, at + needle.len()) =~= haystack.subrange(
        start + at,
        start + at + needle.len(),
    ));
}

/// Finds the first place of a needle at or behind `from`.
///
/// Chunks overlap by one byte less than the needle has, so that a needle
/// across their border is found, and are no shorter than the needle.
pub fn find_with(haystack: &[u8], needle: &[u8], from: usize, tracker: &ResourceTracker) -> (found: Result<
    Option<usize>,
    ResourceError,
>)
    requires
        needle@.len() > 0,
        from <= haystack@.len(),
    ensures
        match found {
            Ok(Some(at)) => first_from(haystack@, needle@, from as int) == Some(at as int),
            Ok(None) => first_from(haystack@, needle@, from as int) is None,
            Err(error) => may_time_out(*tracker, error),
        },
{
    let needle_len: usize = needle.len();
    let stride: usize = if SCAN_CHUNK > needle_len {
        SCAN_CHUNK
    } else {
        needle_len
    };
    let mut start: usize = from;
    while start < haystack.len()
        invariant
            from <= start,
            from <= haystack@.len(),
            needle_len == needle@.len(),
            needle_len > 0,
            stride > 0,
            stride >= needle_len,
            forall|j: int| from <= j < start ==> !occurs_at(haystack@, needle@, j),
        decreases haystack.len() + stride - start,
    {
        tracker.check_time()?;
        let wanted: usize = start.saturating_add(stride).saturating_add(needle_len - 1);
        let end: usize = if wanted < haystack.len() {
            wanted
        } else {
            haystack.len()
        };
        let ghost part = haystack@.subrange(start as int, end as int);
        match find_first(needle, slice_subrange(haystack, start, end)) {
            Some(pos) => {
                proof {
                    lemma_occurs_in_part(haystack@, needle@, start as int, end as int, pos as int);
                    assert forall|j: int| from <= j < start + pos implies !occurs_at(haystack@, needle@, j) by {
                        if j >= start {
                            lemma_occurs_in_part(haystack@, needle@, start as int, end as int, j - start);
                            assert(!occurs_at(part, needle@, j - start));
                        }
                    }
                    lemma_is_first(haystack@, needle@, from as int, Some(start + pos));
                }
                return Ok(Some(start + pos));
            },
            None => {},
        }
        let next: usize = start.saturating_add(stride);
        proof {
            assert forall|j: int| from <= j < next implies !occurs_at(haystack@, needle@, j) by {
                if j >= start && occurs_at(haystack@, needle@, j) {
                    assert(j + needle_len <= end);
                    lemma_occurs_in_part(haystack@, needle@, start as int, end as int, j - start);
                    assert(!occurs_at(part, needle@, j - start));
                }
            }
        }
        start = next;
    }
    proof {
        assert forall|j: int| from <= j implies !occurs_at(haystack@, needle@, j) by {}
        lemma_is_first(haystack@, needle@, from as int, None);
    }
    Ok(None)
}

/// Finds the last place of a needle that ends at or before `limit`.
///
/// Walks chunks from the end, which overlap as those of `find_with` do.
pub fn rfind_with(haystack: &[u8], needle: &[u8], limit: usize, tracker: &ResourceTracker) -> (found: Result<
    Option<usize>,
    ResourceError,
>)
    requires
        needle@.len() > 0,
        limit <= haystack@.len(),
    ensures
        match found {
            Ok(Some(at)) => last_before(haystack@, needle@, limit as int) == Some(at as int),
            Ok(None) => last_before(haystack@, needle@, limit as int) is None,
            Err(error) => may_time_out(*tracker, error),
        },
{
    let needle_len: usize = needle.len();
    let stride: usize = if SCAN_CHUNK > needle_len {
        SCAN_CHUNK
    } else {
        needle_len
    };
    let mut end: usize = limit;
    while end > 0
        invariant
            end <= limit <= haystack@.len(),
            needle_len == needle@.len(),
            needle_len > 0,
            stride > 0,
            forall|j: int| end < j + needle_len <= limit ==> !occurs_at(haystack@, needle@, j),
        decreases end,
    {
        tracker.check_time()?;
        let start: usize = end.saturating_sub(stride).saturating_sub(needle_len - 1);
        let ghost part = haystack@.subrange(start as int, end as int);
        match find_last(needle, slice_subrange(haystack, start, end)) {
            Some(pos) => {
                proof {
                    lemma_occurs_in_part(haystack@, needle@, start as int, end as int, pos as int);
                    assert forall|j: int| start + pos < j && j + needle_len <= limit implies !occurs_at(
                        haystack@,
                        needle@,
                        j,
                    ) by {
                        if j + needle_len <= end {
                            lemma_occurs_in_part(haystack@, needle@, start as int, end as int, j - start);
                            assert(!occurs_at(part, needle@, j - start));
                        }
                    }
                    lemma_is_last(haystack@, needle@, limit as int, Some(start + pos));
                }
                return Ok(Some(start + pos));
            },
            None => {},
        }
        let next: usize = end.saturating_sub(stride);
        proof {
            assert forall|j: int| next < j + needle_len <= limit implies !occurs_at(haystack@, needle@, j) by {
                if j + needle_len <= end && occurs_at(haystack@, needle@, j) {
                    assert(j >= start);
                    lemma_occurs_in_part(haystack@, needle@, start as int, end as int, j - start);
                    assert(!occurs_at(part, needle@, j - start));
                }
            }
        }
        end = next;
    }
    proof {
        assert forall|j: int| j + needle_len <= limit implies !occurs_at(haystack@, needle@, j) by {}
        lemma_is_last(haystack@, needle@, limit as int, None);
    }
    Ok(None)
}

/// Finds the first place of a needle. One that is longer than the haystack is
/// not searched for.
pub fn find_subsequence(haystack: &[u8], needle: &[u8], tracker: &ResourceTracker) -> (found: Result<
    Option<usize>,
    ResourceError,
>)
    requires
        needle@.len() > 0,
    ensures
        match found {
            Ok(Some(at)) => first_from(haystack@, needle@, 0) == Some(at as int),
            Ok(None) => first_from(haystack@, needle@, 0) is None,
            Err(error) => may_time_out(*tracker, error),
        },
{
    if needle.len() > haystack.len() {
        return Ok(None);
    }
    find_with(haystack, needle, 0, tracker)
}

/// Finds the last place of a needle. One that is longer than the haystack is
/// not searched for.
pub fn rfind_subsequence(haystack: &[u8], needle: &[u8], tracker: &ResourceTracker) -> (found: Result<
    Option<usize>,
    ResourceError,
>)
    requires
        needle@.len() > 0,
    ensures
        match found {
            Ok(Some(at)) => last_before(haystack@, needle@, haystack@.len() as int) == Some(at as int),
            Ok(None) => last_before(haystack@, needle@, haystack@.len() as int) is None,
            Err(error) => may_time_out(*tracker, error),
        },
{
    if needle.len() > haystack.len() {
        return Ok(None);
    }
    rfind_with(haystack, needle, haystack.len(), tracker)
}

/// How often the needle stands at or behind `from`, without overlap.
pub open spec fn count_from(haystack: Seq<u8>, needle: Seq<u8>, from: int) -> nat
    decreases haystack.len() - from,
{
    if needle.len() == 0 || from < 0 {
        0
    } else {
        match first_from(haystack, needle, from) {
            Some(at) if from <= at && at + needle.len() <= haystack.len() => 1 + count_from(haystack, needle, at + needle.len()),
            _ => 0,
        }
    }
}

/// Counts the places of a needle that do not overlap.
pub fn count_non_overlapping(haystack: &[u8], needle: &[u8], tracker: &ResourceTracker) -> (counted: Result<
    usize,
    ResourceError,
>)
    requires
        needle@.len() > 0,
    ensures
        match counted {
            Ok(count) => count == count_from(haystack@, needle@, 0) && count <= haystack@.len(),
            Err(error) => may_time_out(*tracker, error),
        },
{
    if needle.len() > haystack.len() {
        return Ok(0);
    }
    let mut count: usize = 0;
    let mut pos: usize = 0;
    let total: usize = haystack.len();
    loop
        invariant
            total == haystack@.len(),
            needle@.len() > 0,
            pos <= haystack@.len(),
            count <= pos,
            count + count_from(haystack@, needle@, pos as int) == count_from(haystack@, needle@, 0),
        decreases haystack@.len() - pos,
    {
        proof {
            lemma_first_from(haystack@, needle@, pos as int);
        }
        match find_with(haystack, needle, pos, tracker)? {
            Some(at) => {
                count = count + 1;
                pos = at + needle.len();
            },
            None => {
                return Ok(count);
            },
        }
    }
}

/// The parts between the places of a separator at or behind `from`, with at
/// most `splits` of them where that is given.
pub open spec fn split_from(bytes: Seq<u8>, sep: Seq<u8>, from: int, splits: Option<nat>) -> Seq<Seq<u8>>
    decreases bytes.len() - from,
{
    if sep.len() == 0 || from < 0 || splits == Some(0nat) {
        seq![bytes.subrange(from, bytes.len() as int)]
    } else {
        match first_from(bytes, sep, from) {
            Some(at) if from <= at && at + sep.len() <= bytes.len() => seq![bytes.subrange(from, at)] + split_from(
                bytes,
                sep,
                at + sep.len(),
                match splits {
                    Some(n) => Some((n - 1) as nat),
                    None => None,
                },
            ),
            _ => seq![bytes.subrange(from, bytes.len() as int)],
        }
    }
}

/// The parts between the last `splits` places of a separator that end at or
/// before `end`.
pub open spec fn rsplit_before(bytes: Seq<u8>, sep: Seq<u8>, end: int, splits: nat) -> Seq<Seq<u8>>
    decreases end,
{
    if sep.len() == 0 || end > bytes.len() || splits == 0 {
        seq![bytes.subrange(0, end)]
    } else {
        match last_before(bytes, sep, end) {
            Some(at) if 0 <= at && at < end => rsplit_before(bytes, sep, at, (splits - 1) as nat).push(
                bytes.subrange(at + sep.len(), end),
            ),
            _ => seq![bytes.subrange(0, end)],
        }
    }
}

/// The byte strings of a list.
pub open spec fn all_bytes(parts: Seq<Vec<u8>>) -> Seq<Seq<u8>> {
    Seq::new(parts.len(), |i: int| parts[i]@)
}

/// One more byte string at the end of a list.
pub proof fn lemma_all_bytes_push(parts: Seq<Vec<u8>>, part: Vec<u8>)
    ensures
        all_bytes(parts.push(part)) == all_bytes(parts).push(part@),
{
    assert(all_bytes(parts.push(part)) =~= all_bytes(parts).push(part@));
}

/// A copy of a part of a byte string.
pub fn copied(bytes: &[u8], start: usize, end: usize) -> (part: Vec<u8>)
    requires
        start <= end <= bytes@.len(),
    ensures
        part@ == bytes@.subrange(start as int, end as int),
{
    slice_to_vec(slice_subrange(bytes, start, end))
}

/// Splits bytes at every place of a separator, or at the first `max` of them.
pub fn split_at_first(bytes: &[u8], sep: &[u8], max: Option<usize>, tracker: &ResourceTracker) -> (parts: Result<
    Vec<Vec<u8>>,
    ResourceError,
>)
    requires
        sep@.len() > 0,
    ensures
        match parts {
            Ok(parts) => all_bytes(parts@) == split_from(
                bytes@,
                sep@,
                0,
                wide(max),
            ),
            Err(error) => may_time_out(*tracker, error),
        },
{
    let ghost splits = wide(max);
    let mut parts: Vec<Vec<u8>> = Vec::new();
    let mut start: usize = 0;
    let mut left: Option<usize> = max;
    let fits: bool = sep.len() <= bytes.len();
    proof {
        assert(all_bytes(parts@) =~= Seq::<Seq<u8>>::empty());
        lemma_first_from(bytes@, sep@, 0);
    }
    let total: usize = bytes.len();
    loop
        invariant
            total == bytes@.len(),
            sep@.len() > 0,
            start <= bytes@.len(),
            fits || (start == 0 && first_from(bytes@, sep@, 0) is None),
            splits == wide(max),
            all_bytes(parts@) + split_from(
                bytes@,
                sep@,
                start as int,
                wide(left),
            ) == split_from(bytes@, sep@, 0, splits),
        decreases bytes@.len() - start,
    {
        let more: bool = match left {
            Some(n) => n > 0,
            None => true,
        };
        proof {
            lemma_first_from(bytes@, sep@, start as int);
        }
        let place: Option<usize> = if more && fits {
            find_with(bytes, sep, start, tracker)?
        } else {
            None
        };
        match place {
            Some(at) => {
                let ghost before = parts@;
                let part = copied(bytes, start, at);
                proof {
                    lemma_all_bytes_push(before, part);
                }
                parts.push(part);
                let ghost old_start = start as int;
                let ghost old_left = left;
                start = at + sep.len();
                left = match left {
                    Some(n) => Some(n - 1),
                    None => None,
                };
                proof {
                    let rest = split_from(
                        bytes@,
                        sep@,
                        start as int,
                        wide(left),
                    );
                    assert(all_bytes(before).push(part@) + rest =~= all_bytes(before) + (seq![part@] + rest));
                }
            },
            None => {
                let ghost before = parts@;
                let part = copied(bytes, start, bytes.len());
                proof {
                    lemma_all_bytes_push(before, part);
                    assert(all_bytes(before).push(part@) =~= all_bytes(before) + seq![part@]);
                }
                parts.push(part);
                return Ok(parts);
            },
        }
    }
}

/// Splits bytes at every place of a separator.
pub fn bytes_split_by_seq(bytes: &[u8], sep: &[u8], tracker: &ResourceTracker) -> (parts: Result<
    Vec<Vec<u8>>,
    ResourceError,
>)
    requires
        sep@.len() > 0,
    ensures
        match parts {
            Ok(parts) => all_bytes(parts@) == split_from(bytes@, sep@, 0, None),
            Err(error) => may_time_out(*tracker, error),
        },
{
    split_at_first(bytes, sep, None, tracker)
}

/// How many splits give at most `n` parts. One part there always is.
pub open spec fn splits_for(n: usize) -> nat {
    if n == 0 {
        0
    } else {
        (n - 1) as nat
    }
}

/// Splits bytes at the first places of a separator into at most `n` parts.
pub fn bytes_splitn_by_seq(bytes: &[u8], sep: &[u8], n: usize, tracker: &ResourceTracker) -> (parts: Result<
    Vec<Vec<u8>>,
    ResourceError,
>)
    requires
        sep@.len() > 0,
    ensures
        match parts {
            Ok(parts) => all_bytes(parts@) == split_from(bytes@, sep@, 0, Some(splits_for(n))),
            Err(error) => may_time_out(*tracker, error),
        },
{
    split_at_first(
        bytes,
        sep,
        Some(
            if n == 0 {
                0
            } else {
                n - 1
            },
        ),
        tracker,
    )
}

/// Splits bytes at the last places of a separator into at most `n` parts.
pub fn bytes_rsplitn_by_seq(bytes: &[u8], sep: &[u8], n: usize, tracker: &ResourceTracker) -> (parts: Result<
    Vec<Vec<u8>>,
    ResourceError,
>)
    requires
        sep@.len() > 0,
    ensures
        match parts {
            Ok(parts) => all_bytes(parts@) == rsplit_before(bytes@, sep@, bytes@.len() as int, splits_for(n)),
            Err(error) => may_time_out(*tracker, error),
        },
{
    split_at_last(
        bytes,
        sep,
        if n == 0 {
            0
        } else {
            n - 1
        },
        tracker,
    )
}

/// The list the other way round.
pub fn reversed(parts: Vec<Vec<u8>>) -> (turned: Vec<Vec<u8>>)
    ensures
        all_bytes(turned@) == all_bytes(parts@).reverse(),
{
    let mut rest = parts;
    let mut turned: Vec<Vec<u8>> = Vec::new();
    let ghost all = all_bytes(rest@);
    proof {
        assert(all.subrange(0, rest@.len() as int) =~= all);
        assert(all.subrange(rest@.len() as int, all.len() as int).reverse() =~= all_bytes(turned@));
    }
    loop
        invariant
            rest@.len() <= all.len(),
            all == all_bytes(parts@),
            all_bytes(rest@) == all.subrange(0, rest@.len() as int),
            all_bytes(turned@) == all.subrange(rest@.len() as int, all.len() as int).reverse(),
        decreases rest@.len(),
    {
        let ghost before = rest@;
        let ghost out = turned@;
        match rest.pop() {
            Some(part) => {
                proof {
                    let n = rest@.len() as int;
                    assert(all_bytes(rest@) =~= all.subrange(0, n));
                    assert(part@ == all_bytes(before)[n]);
                    lemma_all_bytes_push(out, part);
                    assert(all_bytes(out).push(part@) =~= all.subrange(n, all.len() as int).reverse());
                }
                turned.push(part);
            },
            None => {
                proof {
                    assert(all.subrange(0, all.len() as int) =~= all);
                }
                return turned;
            },
        }
    }
}

/// Splits bytes at the last `max` places of a separator.
pub fn split_at_last(bytes: &[u8], sep: &[u8], max: usize, tracker: &ResourceTracker) -> (parts: Result<
    Vec<Vec<u8>>,
    ResourceError,
>)
    requires
        sep@.len() > 0,
    ensures
        match parts {
            Ok(parts) => all_bytes(parts@) == rsplit_before(bytes@, sep@, bytes@.len() as int, max as nat),
            Err(error) => may_time_out(*tracker, error),
        },
{
    let mut parts: Vec<Vec<u8>> = Vec::new();
    let mut end: usize = bytes.len();
    let mut left: usize = max;
    let fits: bool = sep.len() <= bytes.len();
    proof {
        assert(all_bytes(parts@).reverse() =~= Seq::<Seq<u8>>::empty());
        lemma_last_before(bytes@, sep@, bytes@.len() as int);
    }
    loop
        invariant
            sep@.len() > 0,
            end <= bytes@.len(),
            fits || (end == bytes@.len() && last_before(bytes@, sep@, end as int) is None),
            rsplit_before(bytes@, sep@, end as int, left as nat) + all_bytes(parts@).reverse() == rsplit_before(
                bytes@,
                sep@,
                bytes@.len() as int,
                max as nat,
            ),
        decreases end,
    {
        proof {
            lemma_last_before(bytes@, sep@, end as int);
        }
        let place: Option<usize> = if left > 0 && fits {
            rfind_with(bytes, sep, end, tracker)?
        } else {
            None
        };
        let ghost before = parts@;
        match place {
            Some(at) => {
                let part = copied(bytes, at + sep.len(), end);
                proof {
                    lemma_all_bytes_push(before, part);
                    let rest = rsplit_before(bytes@, sep@, at as int, (left - 1) as nat);
                    assert(rest.push(part@) + all_bytes(before).reverse() =~= rest + all_bytes(before).push(
                        part@,
                    ).reverse());
                }
                parts.push(part);
                end = at;
                left = left - 1;
            },
            None => {
                let part = copied(bytes, 0, end);
                proof {
                    lemma_all_bytes_push(before, part);
                    assert(seq![part@] + all_bytes(before).reverse() =~= all_bytes(before).push(part@).reverse());
                }
                parts.push(part);
                return Ok(reversed(parts));
            },
        }
    }
}

/// The bytes with the first `times` places of `old` replaced, or all.
pub open spec fn replaced_from(
    bytes: Seq<u8>,
    old_part: Seq<u8>,
    new_part: Seq<u8>,
    from: int,
    times: Option<nat>,
) -> Seq<u8>
    decreases bytes.len() - from,
{
    if old_part.len() == 0 || from < 0 || times == Some(0nat) {
        bytes.subrange(from, bytes.len() as int)
    } else {
        match first_from(bytes, old_part, from) {
            Some(at) if from <= at && at + old_part.len() <= bytes.len() => bytes.subrange(from, at) + new_part + replaced_from(
                bytes,
                old_part,
                new_part,
                at + old_part.len(),
                match times {
                    Some(n) => Some((n - 1) as nat),
                    None => None,
                },
            ),
            _ => bytes.subrange(from, bytes.len() as int),
        }
    }
}

/// The bytes from `from` on, with `new_part` before each of the first `times`
/// of them and, where that is not reached, behind the last.
pub open spec fn interleaved_from(bytes: Seq<u8>, new_part: Seq<u8>, from: int, times: Option<nat>) -> Seq<u8>
    decreases bytes.len() - from,
{
    let here = if times == Some(0nat) {
        Seq::<u8>::empty()
    } else {
        new_part
    };
    if from >= bytes.len() {
        here
    } else {
        here + seq![bytes[from]] + interleaved_from(
            bytes,
            new_part,
            from + 1,
            match times {
                Some(n) => Some(
                    if n == 0 {
                        0nat
                    } else {
                        (n - 1) as nat
                    },
                ),
                None => None,
            },
        )
    }
}

/// The bytes with the first `times` places of a pattern replaced, or all. An
/// empty pattern stands before each byte and behind the last.
pub open spec fn replaced(bytes: Seq<u8>, old_part: Seq<u8>, new_part: Seq<u8>, times: Option<nat>) -> Seq<u8> {
    if old_part.len() == 0 {
        interleaved_from(bytes, new_part, 0, times)
    } else {
        replaced_from(bytes, old_part, new_part, 0, times)
    }
}

/// A count as a number without bound.
pub open spec fn wide(count: Option<usize>) -> Option<nat> {
    match count {
        Some(n) => Some(n as nat),
        None => None,
    }
}

/// Appends a byte string.
pub fn append_bytes(out: &mut Vec<u8>, bytes: &[u8])
    ensures
        final(out)@ == old(out)@ + bytes@,
{
    let ghost before = out@;
    out.extend_from_slice(bytes);
    assert(out@ =~= before + bytes@);
}

/// The memory in use is looked at while places are replaced: before each byte
/// where the pattern is empty, and else at each place that is found or, where
/// their number is bounded, at each that is searched for.
pub open spec fn looks_at_memory(bytes: Seq<u8>, old_part: Seq<u8>, times: Option<nat>) -> bool {
    if times == Some(0nat) {
        false
    } else if old_part.len() == 0 {
        bytes.len() > 0
    } else {
        old_part.len() <= bytes.len() && (times is Some || first_from(bytes, old_part, 0) is Some)
    }
}

/// A replacement may end with this error: its time is over or, where the memory
/// is looked at, more is in use than is allowed.
pub open spec fn may_stop_replacing(
    tracker: ResourceTracker,
    bytes: Seq<u8>,
    old_part: Seq<u8>,
    times: Option<nat>,
    error: ResourceError,
) -> bool {
    ||| may_time_out(tracker, error)
    ||| looks_at_memory(bytes, old_part, times) && memory_excess(tracker, 0) == Some(error)
}

/// Writes the new part before each byte, up to `times` times.
fn interleave(bytes: &[u8], new_part: &[u8], times: Option<usize>, tracker: &ResourceTracker) -> (made: Result<
    Vec<u8>,
    ResourceError,
>)
    requires
        times != Some(0usize),
    ensures
        match made {
            Ok(made) => made@ == interleaved_from(bytes@, new_part@, 0, wide(times)),
            Err(error) => may_stop_replacing(*tracker, bytes@, Seq::empty(), wide(times), error),
        },
{
    let mut out: Vec<u8> = Vec::new();
    let mut left: Option<usize> = times;
    let mut i: usize = 0;
    let ghost whole = interleaved_from(bytes@, new_part@, 0, wide(times));
    assert(out@ + whole =~= whole);
    while i < bytes.len()
        invariant
            i <= bytes@.len(),
            times != Some(0usize),
            out@ + interleaved_from(bytes@, new_part@, i as int, wide(left)) == whole,
        decreases bytes@.len() - i,
    {
        check_memory_time_every(i, tracker)?;
        let ghost before = out@;
        let ghost here = if wide(left) == Some(0nat) {
            Seq::<u8>::empty()
        } else {
            new_part@
        };
        let ghost next_left: Option<nat> = match wide(left) {
            Some(n) => Some(
                if n == 0 {
                    0nat
                } else {
                    (n - 1) as nat
                },
            ),
            None => None,
        };
        let ghost rest = interleaved_from(bytes@, new_part@, i + 1, next_left);
        match left {
            Some(n) => {
                if n > 0 {
                    append_bytes(&mut out, new_part);
                    left = Some(n - 1);
                }
            },
            None => {
                append_bytes(&mut out, new_part);
            },
        }
        out.push(bytes[i]);
        proof {
            assert(wide(left) == next_left);
            assert(out@ =~= before + here + seq![bytes@[i as int]]);
            assert(before + (here + seq![bytes@[i as int]] + rest) =~= out@ + rest);
        }
        i = i + 1;
    }
    match left {
        Some(n) => {
            if n > 0 {
                append_bytes(&mut out, new_part);
            }
        },
        None => {
            append_bytes(&mut out, new_part);
        },
    }
    assert(out@ =~= whole);
    Ok(out)
}

/// Copies bytes unchanged where nothing can be replaced, after a look at the
/// clock.
pub fn replace_nothing(bytes: &[u8], tracker: &ResourceTracker) -> (made: Result<Vec<u8>, ResourceError>)
    ensures
        match made {
            Ok(made) => made@ == bytes@,
            Err(error) => may_time_out(*tracker, error),
        },
{
    tracker.check_time()?;
    Ok(slice_to_vec(bytes))
}

/// Replaces the places of a pattern, the first `times` of them or all.
fn replace_places(
    bytes: &[u8],
    old_part: &[u8],
    new_part: &[u8],
    times: Option<usize>,
    tracker: &ResourceTracker,
) -> (made: Result<Vec<u8>, ResourceError>)
    requires
        old_part@.len() > 0,
        times != Some(0usize),
    ensures
        match made {
            Ok(made) => made@ == replaced_from(bytes@, old_part@, new_part@, 0, wide(times)),
            Err(error) => may_stop_replacing(*tracker, bytes@, old_part@, wide(times), error),
        },
{
    if old_part.len() > bytes.len() {
        proof {
            lemma_first_from(bytes@, old_part@, 0);
            assert(bytes@.subrange(0, bytes@.len() as int) =~= bytes@);
        }
        return replace_nothing(bytes, tracker);
    }
    let mut out: Vec<u8> = Vec::new();
    let mut start: usize = 0;
    let mut left: Option<usize> = times;
    let mut done: usize = 0;
    let ghost whole = replaced_from(bytes@, old_part@, new_part@, 0, wide(times));
    assert(out@ + whole =~= whole);
    let total: usize = bytes.len();
    loop
        invariant
            total == bytes@.len(),
            0 < old_part@.len() <= bytes@.len(),
            times != Some(0usize),
            start <= bytes@.len(),
            done <= start,
            start > 0 ==> first_from(bytes@, old_part@, 0) is Some,
            whole == replaced_from(bytes@, old_part@, new_part@, 0, wide(times)),
            out@ + replaced_from(bytes@, old_part@, new_part@, start as int, wide(left)) == whole,
        decreases bytes@.len() - start,
    {
        let more: bool = match left {
            Some(n) => n > 0,
            None => true,
        };
        if more && times.is_some() {
            check_memory_time_every(done, tracker)?;
        }
        proof {
            lemma_first_from(bytes@, old_part@, start as int);
        }
        let place: Option<usize> = if more {
            find_with(bytes, old_part, start, tracker)?
        } else {
            None
        };
        let ghost before = out@;
        match place {
            Some(at) => {
                if times.is_none() {
                    check_memory_time_every(done, tracker)?;
                }
                append_bytes(&mut out, slice_subrange(bytes, start, at));
                append_bytes(&mut out, new_part);
                let ghost gap = bytes@.subrange(start as int, at as int);
                start = at + old_part.len();
                done = done + 1;
                left = match left {
                    Some(n) => Some(n - 1),
                    None => None,
                };
                proof {
                    let rest = replaced_from(bytes@, old_part@, new_part@, start as int, wide(left));
                    assert(before + (gap + new_part@ + rest) =~= out@ + rest);
                }
            },
            None => {
                append_bytes(&mut out, slice_subrange(bytes, start, bytes.len()));
                return Ok(out);
            },
        }
    }
}

/// Replaces all places of a pattern.
pub fn bytes_replace_all(bytes: &[u8], old_part: &[u8], new_part: &[u8], tracker: &ResourceTracker) -> (made: Result<
    Vec<u8>,
    ResourceError,
>)
    ensures
        match made {
            Ok(made) => made@ == replaced(bytes@, old_part@, new_part@, None),
            Err(error) => may_stop_replacing(*tracker, bytes@, old_part@, None, error),
        },
{
    if old_part.len() == 0 {
        interleave(bytes, new_part, None, tracker)
    } else {
        replace_places(bytes, old_part, new_part, None, tracker)
    }
}

/// Replaces the first `n` places of a pattern.
pub fn bytes_replace_n(bytes: &[u8], old_part: &[u8], new_part: &[u8], n: usize, tracker: &ResourceTracker) -> (made:
    Result<Vec<u8>, ResourceError>)
    ensures
        match made {
            Ok(made) => made@ == replaced(bytes@, old_part@, new_part@, Some(n as nat)),
            Err(error) => may_stop_replacing(*tracker, bytes@, old_part@, Some(n as nat), error),
        },
{
    if n == 0 {
        proof {
            assert(bytes@.subrange(0, bytes@.len() as int) =~= bytes@);
            lemma_interleaved_nothing(bytes@, new_part@, 0);
        }
        return replace_nothing(bytes, tracker);
    }
    if old_part.len() == 0 {
        interleave(bytes, new_part, Some(n), tracker)
    } else {
        replace_places(bytes, old_part, new_part, Some(n), tracker)
    }
}

/// Nothing interleaved leaves the bytes as they are.
proof fn lemma_interleaved_nothing(bytes: Seq<u8>, new_part: Seq<u8>, from: int)
    requires
        0 <= from <= bytes.len(),
    ensures
        interleaved_from(bytes, new_part, from, Some(0nat)) == bytes.subrange(from, bytes.len() as int),
    decreases bytes.len() - from,
{
    if from < bytes.len() {
        lemma_interleaved_nothing(bytes, new_part, from + 1);
        assert(Seq::<u8>::empty() + seq![bytes[from]] + bytes.subrange(from + 1, bytes.len() as int)
            =~= bytes.subrange(from, bytes.len() as int));
    } else {
        assert(bytes.subrange(from, bytes.len() as int) =~= Seq::<u8>::empty());
    }
}

/// The parts of a split, with the separator put between them again.
pub open spec fn joined(parts: Seq<Seq<u8>>, sep: Seq<u8>) -> Seq<u8>
    decreases parts.len(),
{
    if parts.len() == 0 {
        Seq::empty()
    } else if parts.len() == 1 {
        parts[0]
    } else {
        joined(parts.drop_last(), sep) + sep + parts.last()
    }
}

/// Joining one part more at the front.
proof fn lemma_joined_front(part: Seq<u8>, parts: Seq<Seq<u8>>, sep: Seq<u8>)
    requires
        parts.len() > 0,
    ensures
        joined(seq![part] + parts, sep) == part + sep + joined(parts, sep),
    decreases parts.len(),
{
    let all = seq![part] + parts;
    if parts.len() == 1 {
        assert(all.drop_last() =~= seq![part]);
        assert(all.last() == parts[0]);
        assert(joined(seq![part], sep) == part);
    } else {
        assert(all.drop_last() =~= seq![part] + parts.drop_last());
        lemma_joined_front(part, parts.drop_last(), sep);
        assert(part + sep + joined(parts.drop_last(), sep) + sep + parts.last() =~= part + sep + (joined(
            parts.drop_last(),
            sep,
        ) + sep + parts.last()));
    }
}

/// A split is never empty, and joining its parts with the separator gives the
/// bytes back.
pub proof fn law_split_then_join(bytes: Seq<u8>, sep: Seq<u8>, from: int, splits: Option<nat>)
    requires
        0 <= from <= bytes.len(),
    ensures
        split_from(bytes, sep, from, splits).len() > 0,
        joined(split_from(bytes, sep, from, splits), sep) == bytes.subrange(from, bytes.len() as int),
    decreases bytes.len() - from,
{
    let rest = bytes.subrange(from, bytes.len() as int);
    if sep.len() == 0 || splits == Some(0nat) {
    } else {
        lemma_first_from(bytes, sep, from);
        match first_from(bytes, sep, from) {
            Some(at) if from <= at && at + sep.len() <= bytes.len() => {
                let left: Option<nat> = match splits {
                    Some(n) => Some((n - 1) as nat),
                    None => None,
                };
                law_split_then_join(bytes, sep, at + sep.len(), left);
                let parts = split_from(bytes, sep, at + sep.len(), left);
                lemma_joined_front(bytes.subrange(from, at), parts, sep);
                assert(bytes.subrange(from, at) + sep + bytes.subrange(at + sep.len(), bytes.len() as int) =~= rest) by {
                    assert(bytes.subrange(at, at + sep.len()) == sep);
                    assert forall|i: int| at <= i < at + sep.len() implies bytes[i] == sep[i - at] by {
                        assert(bytes.subrange(at, at + sep.len())[i - at] == bytes[i]);
                    }
                }
            },
            _ => {},
        }
    }
}

/// A split from the right is never empty, and joining its parts with the
/// separator gives the bytes back.
pub proof fn law_rsplit_then_join(bytes: Seq<u8>, sep: Seq<u8>, end: int, splits: nat)
    requires
        0 <= end <= bytes.len(),
    ensures
        rsplit_before(bytes, sep, end, splits).len() > 0,
        joined(rsplit_before(bytes, sep, end, splits), sep) == bytes.subrange(0, end),
    decreases end,
{
    if sep.len() == 0 || splits == 0 {
    } else {
        lemma_last_before(bytes, sep, end);
        match last_before(bytes, sep, end) {
            Some(at) if 0 <= at && at < end => {
                law_rsplit_then_join(bytes, sep, at, (splits - 1) as nat);
                let parts = rsplit_before(bytes, sep, at, (splits - 1) as nat);
                let tail = bytes.subrange(at + sep.len(), end);
                assert(parts.push(tail).drop_last() =~= parts);
                assert(bytes.subrange(0, at) + sep + tail =~= bytes.subrange(0, end)) by {
                    assert(bytes.subrange(at, at + sep.len()) == sep);
                    assert forall|i: int| at <= i < at + sep.len() implies bytes[i] == sep[i - at] by {
                        assert(bytes.subrange(at, at + sep.len())[i - at] == bytes[i]);
                    }
                }
            },
            _ => {},
        }
    }
}

/// How often a pattern is replaced where every place of it is. An empty pattern
/// stands before each byte and behind the last.
pub open spec fn places_of(bytes: Seq<u8>, old_part: Seq<u8>) -> nat {
    if old_part.len() == 0 {
        bytes.len() + 1
    } else {
        count_from(bytes, old_part, 0)
    }
}

/// Replacing the first places of a pattern is splitting there and joining the
/// parts with what comes instead.
pub proof fn law_replacing_is_splitting_and_joining(
    bytes: Seq<u8>,
    old_part: Seq<u8>,
    new_part: Seq<u8>,
    from: int,
    times: Option<nat>,
)
    requires
        0 <= from <= bytes.len(),
        old_part.len() > 0,
    ensures
        replaced_from(bytes, old_part, new_part, from, times) == joined(
            split_from(bytes, old_part, from, times),
            new_part,
        ),
    decreases bytes.len() - from,
{
    if times != Some(0nat) {
        lemma_first_from(bytes, old_part, from);
        match first_from(bytes, old_part, from) {
            Some(at) if from <= at && at + old_part.len() <= bytes.len() => {
                let left: Option<nat> = match times {
                    Some(n) => Some((n - 1) as nat),
                    None => None,
                };
                let next = at + old_part.len();
                law_replacing_is_splitting_and_joining(bytes, old_part, new_part, next, left);
                law_split_then_join(bytes, old_part, next, left);
                lemma_joined_front(bytes.subrange(from, at), split_from(bytes, old_part, next, left), new_part);
            },
            _ => {},
        }
    }
}

/// At least as many replacements as there are places replace them all.
pub proof fn law_enough_replacements_replace_all(bytes: Seq<u8>, old_part: Seq<u8>, new_part: Seq<u8>, times: nat)
    requires
        times >= places_of(bytes, old_part),
    ensures
        replaced(bytes, old_part, new_part, Some(times)) == replaced(bytes, old_part, new_part, None),
{
    if old_part.len() == 0 {
        lemma_interleaved_enough(bytes, new_part, 0, times);
    } else {
        lemma_replaced_enough(bytes, old_part, new_part, 0, times);
    }
}

/// More of the new part than there is room for makes no difference.
proof fn lemma_interleaved_enough(bytes: Seq<u8>, new_part: Seq<u8>, from: int, times: nat)
    requires
        0 <= from <= bytes.len(),
        times > bytes.len() - from,
    ensures
        interleaved_from(bytes, new_part, from, Some(times)) == interleaved_from(bytes, new_part, from, None),
    decreases bytes.len() - from,
{
    if from < bytes.len() {
        lemma_interleaved_enough(bytes, new_part, from + 1, (times - 1) as nat);
    }
}

/// More replacements than there are places make no difference.
proof fn lemma_replaced_enough(bytes: Seq<u8>, old_part: Seq<u8>, new_part: Seq<u8>, from: int, times: nat)
    requires
        0 <= from <= bytes.len(),
        old_part.len() > 0,
        times >= count_from(bytes, old_part, from),
    ensures
        replaced_from(bytes, old_part, new_part, from, Some(times)) == replaced_from(
            bytes,
            old_part,
            new_part,
            from,
            None,
        ),
    decreases bytes.len() - from,
{
    lemma_first_from(bytes, old_part, from);
    match first_from(bytes, old_part, from) {
        Some(at) if from <= at && at + old_part.len() <= bytes.len() => {
            lemma_replaced_enough(bytes, old_part, new_part, at + old_part.len(), (times - 1) as nat);
        },
        _ => {
            assert(replaced_from(bytes, old_part, new_part, from, None) == bytes.subrange(from, bytes.len() as int));
        },
    }
}

/// There are no more places of a pattern than bytes.
pub proof fn lemma_places_fit(bytes: Seq<u8>, needle: Seq<u8>, from: int)
    requires
        0 <= from <= bytes.len(),
    ensures
        count_from(bytes, needle, from) <= bytes.len() - from,
    decreases bytes.len() - from,
{
    if needle.len() > 0 {
        lemma_first_from(bytes, needle, from);
        match first_from(bytes, needle, from) {
            Some(at) if from <= at && at + needle.len() <= bytes.len() => {
                lemma_places_fit(bytes, needle, at + needle.len());
            },
            _ => {},
        }
    }
}

/// The bytes hold the separator nowhere.
pub open spec fn holds_no(part: Seq<u8>, sep: Seq<u8>) -> bool {
    forall|at: int| !#[trigger] occurs_at(part, sep, at)
}

/// A part before which nothing was found holds no separator.
proof fn lemma_part_holds_no(bytes: Seq<u8>, sep: Seq<u8>, start: int, end: int)
    requires
        0 <= start <= end <= bytes.len(),
        forall|j: int| start <= j && j + sep.len() <= end ==> !occurs_at(bytes, sep, j),
    ensures
        holds_no(bytes.subrange(start, end), sep),
{
    assert forall|at: int| !#[trigger] occurs_at(bytes.subrange(start, end), sep, at) by {
        if 0 <= at && start + at + sep.len() <= end {
            lemma_occurs_in_part(bytes, sep, start, end, at);
        }
    }
}

/// A split gives one part more than there are places of the separator, or one
/// more than splits are allowed where that is less. No part holds the
/// separator, but for the last where splits ran out.
pub proof fn law_split_parts_hold_no_separator(bytes: Seq<u8>, sep: Seq<u8>, from: int, splits: Option<nat>)
    requires
        0 <= from <= bytes.len(),
        sep.len() > 0,
    ensures
        ({
            let parts = split_from(bytes, sep, from, splits);
            let places = count_from(bytes, sep, from);
            &&& parts.len() == 1 + match splits {
                Some(n) if n < places => n,
                _ => places,
            }
            &&& forall|i: int| 0 <= i < parts.len() - 1 ==> holds_no(#[trigger] parts[i], sep)
            &&& parts.len() == 1 + places ==> holds_no(parts.last(), sep)
        }),
    decreases bytes.len() - from,
{
    let parts = split_from(bytes, sep, from, splits);
    lemma_first_from(bytes, sep, from);
    match first_from(bytes, sep, from) {
        Some(at) if from <= at && at + sep.len() <= bytes.len() => {
            if splits != Some(0nat) {
                let left: Option<nat> = match splits {
                    Some(n) => Some((n - 1) as nat),
                    None => None,
                };
                let next = at + sep.len();
                let rest = split_from(bytes, sep, next, left);
                law_split_parts_hold_no_separator(bytes, sep, next, left);
                lemma_part_holds_no(bytes, sep, from, at);
                assert(parts =~= seq![bytes.subrange(from, at)] + rest);
                assert forall|i: int| 0 <= i < parts.len() - 1 implies holds_no(#[trigger] parts[i], sep) by {
                    if i > 0 {
                        assert(parts[i] == rest[i - 1]);
                    }
                }
                assert(parts.last() == rest.last());
            }
        },
        _ => {
            lemma_part_holds_no(bytes, sep, from, bytes.len() as int);
        },
    }
}

/// No part of a split from the right holds the separator, but for the first,
/// and there are no more parts than splits are allowed and one.
pub proof fn law_rsplit_parts_hold_no_separator(bytes: Seq<u8>, sep: Seq<u8>, end: int, splits: nat)
    requires
        0 <= end <= bytes.len(),
        sep.len() > 0,
    ensures
        ({
            let parts = rsplit_before(bytes, sep, end, splits);
            &&& 0 < parts.len() <= splits + 1
            &&& forall|i: int| 0 < i < parts.len() ==> holds_no(#[trigger] parts[i], sep)
            &&& parts.len() <= splits ==> holds_no(parts[0], sep)
        }),
    decreases end,
{
    let parts = rsplit_before(bytes, sep, end, splits);
    lemma_last_before(bytes, sep, end);
    if splits > 0 {
        match last_before(bytes, sep, end) {
            Some(at) if 0 <= at && at < end => {
                let rest = rsplit_before(bytes, sep, at, (splits - 1) as nat);
                let tail = bytes.subrange(at + sep.len(), end);
                law_rsplit_parts_hold_no_separator(bytes, sep, at, (splits - 1) as nat);
                lemma_part_holds_no(bytes, sep, at + sep.len(), end);
                assert(parts =~= rest.push(tail));
                assert forall|i: int| 0 < i < parts.len() implies holds_no(#[trigger] parts[i], sep) by {
                    if i < rest.len() {
                        assert(parts[i] == rest[i]);
                    }
                }
                assert(parts[0] == rest[0]);
            },
            _ => {
                lemma_part_holds_no(bytes, sep, 0, end);
            },
        }
    }
}

/// How many places are replaced, of so many.
spec fn replacements(places: nat, times: Option<nat>) -> nat {
    match times {
        Some(n) if n < places => n,
        _ => places,
    }
}

/// Each replacement takes a place of the pattern out and puts the new part in.
proof fn lemma_replaced_length(bytes: Seq<u8>, old_part: Seq<u8>, new_part: Seq<u8>, from: int, times: Option<nat>)
    requires
        0 <= from <= bytes.len(),
        old_part.len() > 0,
    ensures
        replaced_from(bytes, old_part, new_part, from, times).len() == bytes.len() - from + replacements(
            count_from(bytes, old_part, from),
            times,
        ) * (new_part.len() - old_part.len()),
        count_from(bytes, old_part, from) * old_part.len() <= bytes.len() - from,
    decreases bytes.len() - from,
{
    lemma_first_from(bytes, old_part, from);
    let grows = new_part.len() - old_part.len();
    match first_from(bytes, old_part, from) {
        Some(at) if from <= at && at + old_part.len() <= bytes.len() => {
            let next = at + old_part.len();
            let left: Option<nat> = match times {
                Some(n) => Some((n - 1) as nat),
                None => None,
            };
            let more = count_from(bytes, old_part, next);
            lemma_replaced_length(bytes, old_part, new_part, next, left);
            assert((1 + more) * old_part.len() == old_part.len() + more * old_part.len()) by (nonlinear_arith);
            if times == Some(0nat) {
                assert(0 * grows == 0) by (nonlinear_arith);
            } else {
                let rest = replacements(more, left);
                assert(replacements(1 + more, times) == 1 + rest);
                assert((1 + rest) * grows == grows + rest * grows) by (nonlinear_arith);
            }
        },
        _ => {
            assert(0 * grows == 0 && 0 * old_part.len() == 0) by (nonlinear_arith);
        },
    }
}

/// An empty pattern is replaced before each byte and behind the last.
proof fn lemma_interleaved_length(bytes: Seq<u8>, new_part: Seq<u8>, from: int, times: Option<nat>)
    requires
        0 <= from <= bytes.len(),
    ensures
        interleaved_from(bytes, new_part, from, times).len() == bytes.len() - from + replacements(
            (bytes.len() - from + 1) as nat,
            times,
        ) * new_part.len(),
    decreases bytes.len() - from,
{
    let all = (bytes.len() - from + 1) as nat;
    let done = replacements(all, times);
    if from < bytes.len() {
        let left: Option<nat> = match times {
            Some(n) => Some(
                if n == 0 {
                    0nat
                } else {
                    (n - 1) as nat
                },
            ),
            None => None,
        };
        lemma_interleaved_length(bytes, new_part, from + 1, left);
        let rest = replacements((all - 1) as nat, left);
        if times == Some(0nat) {
            assert(done == 0 && rest == 0);
        } else {
            assert(done == 1 + rest);
            assert((1 + rest) * new_part.len() == new_part.len() + rest * new_part.len()) by (nonlinear_arith);
        }
    } else {
        assert(0 * new_part.len() == 0 && 1 * new_part.len() == new_part.len()) by (nonlinear_arith);
    }
}

/// A number of replacements as a bound: a negative one is none.
pub open spec fn replacement_bound(count: i64) -> Option<nat> {
    if count < 0 {
        None
    } else {
        Some(count as nat)
    }
}

/// The bytes behind a replacement are no more than the size that the
/// replacement is held against the limits with.
pub proof fn law_replacements_fit_their_estimate(bytes: Seq<u8>, old_part: Seq<u8>, new_part: Seq<u8>, count: i64)
    requires
        bytes.len() <= usize::MAX,
        replaced(bytes, old_part, new_part, replacement_bound(count)).len() <= usize::MAX,
    ensures
        replaced(bytes, old_part, new_part, replacement_bound(count)).len() <= replaced_size(
            bytes.len() as int,
            old_part.len() as int,
            new_part.len() as int,
            count as int,
        ),
{
    let len = bytes.len() as int;
    let old_len = old_part.len() as int;
    let new_len = new_part.len() as int;
    let times = replacement_bound(count);
    let most = max_replacements(len, old_len, count as int);
    if old_len == 0 {
        lemma_interleaved_length(bytes, new_part, 0, times);
        let done = replacements((len + 1) as nat, times) as int;
        assert(most * 0 == 0) by (nonlinear_arith);
        if done <= most {
            assert(done * new_len <= most * new_len) by (nonlinear_arith)
                requires
                    done <= most,
                    0 <= new_len,
            ;
        } else if new_len == 0 {
            assert(done * new_len == 0 && most * new_len == 0) by (nonlinear_arith)
                requires
                    new_len == 0,
            ;
        } else {
            assert(done * new_len >= done) by (nonlinear_arith)
                requires
                    done >= 0,
                    new_len >= 1,
            ;
        }
    } else {
        lemma_replaced_length(bytes, old_part, new_part, 0, times);
        let places = count_from(bytes, old_part, 0) as int;
        let done = replacements(places as nat, times) as int;
        assert(places <= len / old_len) by (nonlinear_arith)
            requires
                places * old_len <= len,
                old_len > 0,
        ;
        if new_len < old_len {
            assert(done * (new_len - old_len) <= 0) by (nonlinear_arith)
                requires
                    done >= 0,
                    new_len < old_len,
            ;
        } else {
            assert(most * old_len <= len) by (nonlinear_arith)
                requires
                    0 <= most <= len / old_len,
                    old_len > 0,
            ;
            assert(done * (new_len - old_len) <= most * (new_len - old_len)) by (nonlinear_arith)
                requires
                    done <= most,
                    new_len >= old_len,
            ;
            assert(most * (new_len - old_len) == most * new_len - most * old_len) by (nonlinear_arith);
        }
    }
}

} // verus!
