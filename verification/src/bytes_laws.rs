//! What the methods of byte strings mean: how their results relate to the bytes
//! they were called on.

use crate::args::given;
use crate::bytes::{affix_model, any_affix, byte_at, remove_model, search_model, split_outcome, MadeModel};
use crate::bytes_call::{joined_items, partition_model};
use crate::bytes_text::{
    agrees, answer, case_changed, counts, filled, has_prefix, has_suffix, justified, kept_from, kept_until, letter,
    strippable, stripped, whitespace, word_end, word_start, words_before, words_from, BytesPredicate, CaseChange,
    Justify, StripSide,
};
use crate::exceptions::{value_error_model, ErrorModel};
use crate::heap::VmModel;
use crate::scan::{first_from, joined, last_before, occurs_at};
use crate::value::Value;
use vstd::prelude::*;

verus! {

/// All of the bytes are white space.
pub open spec fn all_space(bytes: Seq<u8>) -> bool {
    forall|i: int| 0 <= i < bytes.len() ==> whitespace(#[trigger] bytes[i])
}

/// None of the bytes is white space.
pub open spec fn no_space(bytes: Seq<u8>) -> bool {
    forall|i: int| 0 <= i < bytes.len() ==> !whitespace(#[trigger] bytes[i])
}

/// Parts with a gap before each of them and one behind the last.
pub open spec fn spliced(gaps: Seq<Seq<u8>>, parts: Seq<Seq<u8>>) -> Seq<u8>
    decreases parts.len(),
{
    if parts.len() == 0 {
        gaps[0]
    } else {
        gaps[0] + parts[0] + spliced(gaps.skip(1), parts.skip(1))
    }
}

/// The parts are what is left of the bytes where gaps of white space were cut
/// out: one between each two parts, and what there is at both ends.
pub open spec fn cut_at_space(bytes: Seq<u8>, parts: Seq<Seq<u8>>, gaps: Seq<Seq<u8>>) -> bool {
    &&& gaps.len() == parts.len() + 1
    &&& forall|i: int| 0 <= i < gaps.len() ==> all_space(#[trigger] gaps[i])
    &&& forall|i: int| 0 < i < parts.len() ==> (#[trigger] gaps[i]).len() > 0
    &&& forall|i: int| 0 <= i < parts.len() ==> (#[trigger] parts[i]).len() > 0
    &&& bytes == spliced(gaps, parts)
}

proof fn lemma_space_before(bytes: Seq<u8>, from: int)
    requires
        0 <= from <= bytes.len(),
    ensures
        from <= kept_from(bytes, None, from) <= bytes.len(),
        all_space(bytes.subrange(from, kept_from(bytes, None, from))),
        kept_from(bytes, None, from) < bytes.len() ==> !whitespace(bytes[kept_from(bytes, None, from)]),
    decreases bytes.len() - from,
{
    let start = kept_from(bytes, None, from);
    if from < bytes.len() && whitespace(bytes[from]) {
        lemma_space_before(bytes, from + 1);
        let gap = bytes.subrange(from, start);
        let tail = bytes.subrange(from + 1, start);
        assert forall|i: int| 0 <= i < gap.len() implies whitespace(#[trigger] gap[i]) by {
            if i > 0 {
                assert(gap[i] == tail[i - 1]);
            }
        }
    }
}

proof fn lemma_space_behind(bytes: Seq<u8>, end: int)
    requires
        0 <= end <= bytes.len(),
    ensures
        0 <= kept_until(bytes, None, end) <= end,
        all_space(bytes.subrange(kept_until(bytes, None, end), end)),
        kept_until(bytes, None, end) > 0 ==> !whitespace(bytes[kept_until(bytes, None, end) - 1]),
    decreases end,
{
    let stop = kept_until(bytes, None, end);
    if end > 0 && whitespace(bytes[end - 1]) {
        lemma_space_behind(bytes, end - 1);
        let gap = bytes.subrange(stop, end);
        let head = bytes.subrange(stop, end - 1);
        assert forall|i: int| 0 <= i < gap.len() implies whitespace(#[trigger] gap[i]) by {
            if i < head.len() {
                assert(gap[i] == head[i]);
            }
        }
    }
}

proof fn lemma_word_forward(bytes: Seq<u8>, from: int)
    requires
        0 <= from <= bytes.len(),
    ensures
        from <= word_end(bytes, from) <= bytes.len(),
        no_space(bytes.subrange(from, word_end(bytes, from))),
        word_end(bytes, from) < bytes.len() ==> whitespace(bytes[word_end(bytes, from)]),
    decreases bytes.len() - from,
{
    let end = word_end(bytes, from);
    if from < bytes.len() && !whitespace(bytes[from]) {
        lemma_word_forward(bytes, from + 1);
        let word = bytes.subrange(from, end);
        let tail = bytes.subrange(from + 1, end);
        assert forall|i: int| 0 <= i < word.len() implies !whitespace(#[trigger] word[i]) by {
            if i > 0 {
                assert(word[i] == tail[i - 1]);
            }
        }
    }
}

proof fn lemma_word_backward(bytes: Seq<u8>, end: int)
    requires
        0 <= end <= bytes.len(),
    ensures
        0 <= word_start(bytes, end) <= end,
        no_space(bytes.subrange(word_start(bytes, end), end)),
        word_start(bytes, end) > 0 ==> whitespace(bytes[word_start(bytes, end) - 1]),
    decreases end,
{
    let start = word_start(bytes, end);
    if end > 0 && !whitespace(bytes[end - 1]) {
        lemma_word_backward(bytes, end - 1);
        let word = bytes.subrange(start, end);
        let head = bytes.subrange(start, end - 1);
        assert forall|i: int| 0 <= i < word.len() implies !whitespace(#[trigger] word[i]) by {
            if i < head.len() {
                assert(word[i] == head[i]);
            }
        }
    }
}

proof fn lemma_spliced_behind(gaps: Seq<Seq<u8>>, parts: Seq<Seq<u8>>, part: Seq<u8>, gap: Seq<u8>)
    requires
        gaps.len() == parts.len() + 1,
    ensures
        spliced(gaps.push(gap), parts.push(part)) == spliced(gaps, parts) + part + gap,
    decreases parts.len(),
{
    let more_gaps = gaps.push(gap);
    let more_parts = parts.push(part);
    if parts.len() == 0 {
        assert(more_parts.skip(1) =~= Seq::<Seq<u8>>::empty());
        assert(more_gaps.skip(1)[0] == gap);
        assert(spliced(more_gaps.skip(1), more_parts.skip(1)) == gap);
        assert(spliced(more_gaps, more_parts) =~= gaps[0] + part + gap);
    } else {
        lemma_spliced_behind(gaps.skip(1), parts.skip(1), part, gap);
        assert(more_gaps.skip(1) =~= gaps.skip(1).push(gap));
        assert(more_parts.skip(1) =~= parts.skip(1).push(part));
        assert(spliced(more_gaps, more_parts) =~= spliced(gaps, parts) + part + gap);
    }
}

/// Splitting at white space loses nothing but white space. The parts, with the
/// gaps that were cut out, make up the bytes again. There is no white space in a
/// part, but for the last of a limited number, which starts with none and
/// reaches to the end of the bytes.
pub proof fn law_words_make_the_whole(bytes: Seq<u8>, from: int, splits: Option<nat>) -> (gaps: Seq<Seq<u8>>)
    requires
        0 <= from <= bytes.len(),
    ensures
        cut_at_space(bytes.skip(from), words_from(bytes, from, splits), gaps),
        forall|i: int|
            0 <= i < words_from(bytes, from, splits).len() ==> !whitespace(
                (#[trigger] words_from(bytes, from, splits)[i])[0],
            ),
        forall|i: int|
            0 <= i < words_from(bytes, from, splits).len() && splits != Some(i as nat) ==> no_space(
                #[trigger] words_from(bytes, from, splits)[i],
            ),
        splits matches Some(n) ==> words_from(bytes, from, splits).len() <= n + 1,
        splits matches Some(n) ==> words_from(bytes, from, splits).len() == n + 1 ==> gaps[n as int + 1].len() == 0,
        from < bytes.len() && whitespace(bytes[from]) ==> gaps[0].len() > 0,
    decreases bytes.len() - from,
{
    let parts = words_from(bytes, from, splits);
    let start = kept_from(bytes, None, from);
    let end = word_end(bytes, start);
    lemma_space_before(bytes, from);
    lemma_word_forward(bytes, start);
    let gap = bytes.subrange(from, start);
    if start >= bytes.len() {
        assert(gap =~= bytes.skip(from));
        seq![gap]
    } else if splits == Some(0nat) {
        let none = Seq::<u8>::empty();
        let gaps = seq![gap, none];
        assert(parts =~= seq![bytes.subrange(start, bytes.len() as int)]);
        assert(parts.skip(1) =~= Seq::<Seq<u8>>::empty());
        assert(gaps.skip(1)[0] == none);
        assert(spliced(gaps.skip(1), parts.skip(1)) == none);
        assert(bytes.skip(from) =~= spliced(gaps, parts));
        gaps
    } else {
        let fewer = match splits {
            Some(n) => Some((n - 1) as nat),
            None => None,
        };
        let word = bytes.subrange(start, end);
        let rest = words_from(bytes, end, fewer);
        let behind = law_words_make_the_whole(bytes, end, fewer);
        let gaps = seq![gap] + behind;
        assert(parts == seq![word] + rest);
        assert(gaps.skip(1) =~= behind);
        assert(parts.skip(1) =~= rest);
        assert(bytes.skip(from) =~= gap + word + bytes.skip(end));
        assert forall|i: int| 0 <= i < gaps.len() implies all_space(#[trigger] gaps[i]) by {
            if i > 0 {
                assert(gaps[i] == behind[i - 1]);
            }
        }
        assert forall|i: int| 0 < i < parts.len() implies (#[trigger] gaps[i]).len() > 0 by {
            assert(gaps[i] == behind[i - 1]);
            if i == 1 {
                if end == bytes.len() {
                    assert(rest.len() == 0);
                }
            }
        }
        assert forall|i: int| 0 <= i < parts.len() implies (#[trigger] parts[i]).len() > 0 && !whitespace(
            parts[i][0],
        ) && (splits != Some(i as nat) ==> no_space(parts[i])) by {
            if i > 0 {
                assert(parts[i] == rest[i - 1]);
            } else {
                assert(word[0] == bytes[start]);
            }
        }
        gaps
    }
}

/// Splitting at white space from the right loses nothing but white space. The
/// parts, with the gaps that were cut out, make up the bytes again. There is no
/// white space in a part, but for the first of a full number, which ends with
/// none and reaches to the start of the bytes.
pub proof fn law_words_from_the_right_make_the_whole(bytes: Seq<u8>, until: int, splits: nat) -> (gaps: Seq<Seq<u8>>)
    requires
        0 <= until <= bytes.len(),
    ensures
        cut_at_space(bytes.take(until), words_before(bytes, until, splits), gaps),
        forall|i: int|
            0 <= i < words_before(bytes, until, splits).len() ==> !whitespace(
                (#[trigger] words_before(bytes, until, splits)[i]).last(),
            ),
        forall|i: int|
            0 <= i < words_before(bytes, until, splits).len() && (i > 0 || words_before(bytes, until, splits).len()
                <= splits) ==> no_space(#[trigger] words_before(bytes, until, splits)[i]),
        words_before(bytes, until, splits).len() <= splits + 1,
        words_before(bytes, until, splits).len() == splits + 1 ==> gaps[0].len() == 0,
        until > 0 && whitespace(bytes[until - 1]) ==> gaps.last().len() > 0,
    decreases until,
{
    let parts = words_before(bytes, until, splits);
    let end = kept_until(bytes, None, until);
    let start = word_start(bytes, end);
    lemma_space_behind(bytes, until);
    lemma_word_backward(bytes, end);
    let gap = bytes.subrange(end, until);
    if end <= 0 {
        assert(gap =~= bytes.take(until));
        seq![gap]
    } else if splits == 0 {
        let none = Seq::<u8>::empty();
        let gaps = seq![none, gap];
        let all = bytes.subrange(0, end);
        assert(parts =~= seq![all]);
        assert(all.last() == bytes[end - 1]);
        assert(parts.skip(1) =~= Seq::<Seq<u8>>::empty());
        assert(gaps.skip(1)[0] == gap);
        assert(spliced(gaps.skip(1), parts.skip(1)) == gap);
        assert(bytes.take(until) =~= spliced(gaps, parts));
        gaps
    } else {
        let word = bytes.subrange(start, end);
        let rest = words_before(bytes, start, (splits - 1) as nat);
        let before = law_words_from_the_right_make_the_whole(bytes, start, (splits - 1) as nat);
        let gaps = before.push(gap);
        lemma_spliced_behind(before, rest, word, gap);
        assert(parts == rest.push(word));
        assert(bytes.take(until) =~= bytes.take(start) + word + gap);
        assert(word.last() == bytes[end - 1]);
        assert forall|i: int| 0 <= i < gaps.len() implies all_space(#[trigger] gaps[i]) by {
            if i < before.len() {
                assert(gaps[i] == before[i]);
            }
        }
        assert forall|i: int| 0 < i < parts.len() implies (#[trigger] gaps[i]).len() > 0 by {
            assert(gaps[i] == before[i]);
            if i == rest.len() {
                assert(before[i] == before.last());
                if start == 0 {
                    assert(rest.len() == 0);
                }
            }
        }
        assert forall|i: int| 0 <= i < parts.len() implies (#[trigger] parts[i]).len() > 0 && !whitespace(
            parts[i].last(),
        ) && (i > 0 || parts.len() <= splits ==> no_space(parts[i])) by {
            if i < rest.len() {
                assert(parts[i] == rest[i]);
            } else {
                assert(parts[i] == word);
            }
        }
        gaps
    }
}

/// The white space is what the six ASCII characters for it are.
pub proof fn law_white_space(byte: u8)
    ensures
        whitespace(byte) <==> seq![32u8, 9, 10, 11, 12, 13].contains(byte),
{
    let list = seq![32u8, 9, 10, 11, 12, 13];
    assert(list[0] == 32 && list[1] == 9 && list[2] == 10 && list[3] == 11 && list[4] == 12 && list[5] == 13);
    if whitespace(byte) {
        if byte == 32 {
            assert(list[0] == byte);
        } else {
            assert(list[byte - 8] == byte);
        }
    }
}

/// What comes last in a splice is its last part and its last gap.
proof fn lemma_spliced_end(gaps: Seq<Seq<u8>>, parts: Seq<Seq<u8>>)
    requires
        gaps.len() == parts.len() + 1,
        parts.len() > 0,
    ensures
        spliced(gaps, parts) == spliced(gaps.drop_last(), parts.drop_last()) + parts.last() + gaps.last(),
{
    lemma_spliced_behind(gaps.drop_last(), parts.drop_last(), parts.last(), gaps.last());
    assert(gaps.drop_last().push(gaps.last()) =~= gaps);
    assert(parts.drop_last().push(parts.last()) =~= parts);
}

/// `split` and `rsplit` without a separator give parts which, with the white
/// space that was cut out between them, make up the bytes. Without a limit there
/// is no white space in any part. With a limit of `max` there are at most
/// `max + 1` parts. Where there are that many, the last one of `split` reaches to
/// the end of the bytes, and the first one of `rsplit` to their start, and only
/// there can white space be.
pub proof fn law_splitting_at_space_loses_nothing_else(bytes: Seq<u8>, max: int, from_right: bool) -> (gaps: Seq<Seq<u8>>)
    ensures
        split_outcome(bytes, None, max, from_right) matches Ok(MadeModel::Parts(parts)) && {
            &&& cut_at_space(bytes, parts, gaps)
            &&& max < 0 ==> forall|i: int| 0 <= i < parts.len() ==> no_space(#[trigger] parts[i])
            &&& max >= 0 ==> parts.len() <= max + 1
            &&& max >= 0 && !from_right ==> forall|i: int| 0 <= i < parts.len() && i < max ==> no_space(#[trigger] parts[i])
            &&& max >= 0 && from_right && parts.len() <= max ==> forall|i: int|
                0 <= i < parts.len() ==> no_space(#[trigger] parts[i])
            &&& max >= 0 && from_right ==> forall|i: int| 0 < i < parts.len() ==> no_space(#[trigger] parts[i])
            &&& max >= 0 && !from_right && parts.len() == max + 1 ==> parts.last() == bytes.skip(
                bytes.len() - parts.last().len(),
            )
            &&& max >= 0 && from_right && parts.len() == max + 1 ==> parts[0] == bytes.take(parts[0].len() as int)
        },
{
    assert(bytes.skip(0) =~= bytes);
    assert(bytes.take(bytes.len() as int) =~= bytes);
    if max < 0 {
        law_words_make_the_whole(bytes, 0, None)
    } else if from_right {
        let gaps = law_words_from_the_right_make_the_whole(bytes, bytes.len() as int, max as nat);
        let parts = words_before(bytes, bytes.len() as int, max as nat);
        if parts.len() == max + 1 {
            let rest = spliced(gaps.skip(1), parts.skip(1));
            assert(bytes == gaps[0] + parts[0] + rest);
            assert(parts[0] =~= bytes.take(parts[0].len() as int));
        }
        gaps
    } else {
        let gaps = law_words_make_the_whole(bytes, 0, Some(max as nat));
        let parts = words_from(bytes, 0, Some(max as nat));
        assert forall|i: int| 0 <= i < parts.len() && i < max implies no_space(#[trigger] parts[i]) by {
            assert(Some(max as nat) != Some(i as nat));
        }
        if parts.len() == max + 1 {
            lemma_spliced_end(gaps, parts);
            assert(gaps.last() == gaps[max + 1]);
            let head = spliced(gaps.drop_last(), parts.drop_last());
            assert(bytes == head + parts.last() + gaps.last());
            assert(parts.last() =~= bytes.skip(bytes.len() - parts.last().len()));
        }
        gaps
    }
}

/// The first occurrence is one, and there is none before it.
proof fn lemma_first(bytes: Seq<u8>, sub: Seq<u8>, from: int)
    requires
        0 <= from,
    ensures
        match first_from(bytes, sub, from) {
            Some(at) => from <= at && occurs_at(bytes, sub, at) && forall|i: int|
                from <= i < at ==> !#[trigger] occurs_at(bytes, sub, i),
            None => forall|i: int| from <= i ==> !#[trigger] occurs_at(bytes, sub, i),
        },
    decreases bytes.len() + 1 - from,
{
    if from + sub.len() <= bytes.len() && !occurs_at(bytes, sub, from) {
        lemma_first(bytes, sub, from + 1);
    }
}

/// The last occurrence is one, and there is none behind it.
proof fn lemma_last(bytes: Seq<u8>, sub: Seq<u8>, end: int)
    requires
        0 <= end <= bytes.len(),
        sub.len() > 0,
    ensures
        match last_before(bytes, sub, end) {
            Some(at) => at + sub.len() <= end && occurs_at(bytes, sub, at) && forall|i: int|
                at < i && i + sub.len() <= end ==> !#[trigger] occurs_at(bytes, sub, i),
            None => forall|i: int| i + sub.len() <= end ==> !#[trigger] occurs_at(bytes, sub, i),
        },
    decreases end,
{
    if end >= sub.len() && !occurs_at(bytes, sub, end - sub.len()) {
        lemma_last(bytes, sub, end - 1);
    }
}

/// `partition` cuts at the first place where the separator stands and
/// `rpartition` at the last. The three parts make up the bytes. Where it stands
/// nowhere, the bytes are the first part, or the last.
pub proof fn law_partition_cuts_once(vm: VmModel, bytes: Seq<u8>, value: Value, sep: Seq<u8>)
    requires
        vm.bytes_of(value) == Some(sep),
        sep.len() > 0,
    ensures
        partition_model(vm, bytes, given(seq![value]), false) matches Ok(MadeModel::Triple(a, b, c)) && {
            &&& a + b + c == bytes
            &&& b == sep && (forall|i: int| 0 <= i < a.len() ==> !#[trigger] occurs_at(bytes, sep, i)) || b.len() == 0
                && c.len() == 0 && forall|i: int| !#[trigger] occurs_at(bytes, sep, i)
        },
        partition_model(vm, bytes, given(seq![value]), true) matches Ok(MadeModel::Triple(a, b, c)) && {
            &&& a + b + c == bytes
            &&& b == sep && (forall|i: int| i > a.len() ==> !#[trigger] occurs_at(bytes, sep, i)) || a.len() == 0
                && b.len() == 0 && forall|i: int| !#[trigger] occurs_at(bytes, sep, i)
        },
{
    let len = bytes.len() as int;
    lemma_first(bytes, sep, 0);
    lemma_last(bytes, sep, len);
    if let Some(at) = first_from(bytes, sep, 0) {
        assert(bytes.subrange(0, at) + sep + bytes.subrange(at + sep.len(), len) =~= bytes) by {
            assert(bytes.subrange(at, at + sep.len()) == sep);
            assert(bytes =~= bytes.subrange(0, at) + bytes.subrange(at, at + sep.len()) + bytes.subrange(
                at + sep.len(),
                len,
            ));
        }
    } else {
        assert(bytes + Seq::<u8>::empty() + Seq::<u8>::empty() =~= bytes);
    }
    if let Some(at) = last_before(bytes, sep, len) {
        assert(bytes.subrange(0, at) + sep + bytes.subrange(at + sep.len(), len) =~= bytes) by {
            assert(bytes.subrange(at, at + sep.len()) == sep);
            assert(bytes =~= bytes.subrange(0, at) + bytes.subrange(at, at + sep.len()) + bytes.subrange(
                at + sep.len(),
                len,
            ));
        }
    } else {
        assert(Seq::<u8>::empty() + Seq::<u8>::empty() + bytes =~= bytes);
    }
}

/// `find` gives the first place where the part stands and `rfind` the last, or
/// -1 where it stands nowhere. `index` and `rindex` give the same place, or an
/// error.
pub proof fn law_find_gives_the_place(vm: VmModel, name: Seq<char>, bytes: Seq<u8>, value: Value, sub: Seq<u8>, must: bool)
    requires
        vm.bytes_of(value) == Some(sub),
        sub.len() > 0,
        bytes.len() <= i64::MAX,
    ensures
        ({
            let first = search_model(vm, name, bytes, given(seq![value]), false, must);
            let last = search_model(vm, name, bytes, given(seq![value]), true, must);
            if forall|i: int| !#[trigger] occurs_at(bytes, sub, i) {
                if must {
                    &&& first == Err::<MadeModel, ErrorModel>(value_error_model("subsection not found"@))
                    &&& last == Err::<MadeModel, ErrorModel>(value_error_model("subsection not found"@))
                } else {
                    &&& first == Ok::<MadeModel, ErrorModel>(MadeModel::Plain(Value::Int((-1) as i64)))
                    &&& last == Ok::<MadeModel, ErrorModel>(MadeModel::Plain(Value::Int((-1) as i64)))
                }
            } else {
                &&& first matches Ok(MadeModel::Plain(Value::Int(n))) && occurs_at(bytes, sub, n as int) && forall|i: int|
                    i < n ==> !#[trigger] occurs_at(bytes, sub, i)
                &&& last matches Ok(MadeModel::Plain(Value::Int(n))) && occurs_at(bytes, sub, n as int) && forall|i: int|
                    i > n ==> !#[trigger] occurs_at(bytes, sub, i)
            }
        }),
{
    let len = bytes.len() as int;
    assert(bytes.subrange(0, len) =~= bytes);
    lemma_first(bytes, sub, 0);
    lemma_last(bytes, sub, len);
}

/// A search in a range looks at the bytes between its bounds and counts from the
/// start of the whole. A negative bound counts from the end.
pub proof fn law_searches_look_between_their_bounds(
    vm: VmModel,
    name: Seq<char>,
    bytes: Seq<u8>,
    value: Value,
    sub: Seq<u8>,
    start: i64,
    end: i64,
    last: bool,
)
    requires
        vm.bytes_of(value) == Some(sub),
        0 <= start <= end <= bytes.len(),
        bytes.len() <= i64::MAX,
        vm.int_of(Value::Int(start)) == Ok::<i64, ErrorModel>(start),
        vm.int_of(Value::Int(end)) == Ok::<i64, ErrorModel>(end),
    ensures
        ({
            let whole = search_model(
                vm,
                name,
                bytes,
                given(seq![value, Value::Int(start), Value::Int(end)]),
                last,
                false,
            );
            let part = search_model(
                vm,
                name,
                bytes.subrange(start as int, end as int),
                given(seq![value]),
                last,
                false,
            );
            &&& part == Ok::<MadeModel, ErrorModel>(MadeModel::Plain(Value::Int((-1) as i64))) ==> whole == part
            &&& part matches Ok(MadeModel::Plain(Value::Int(n))) && (n >= 0 ==> whole == Ok::<MadeModel, ErrorModel>(
                MadeModel::Plain(Value::Int((start + n) as i64)),
            ))
        }),
{
    let part = bytes.subrange(start as int, end as int);
    assert(part.subrange(0, part.len() as int) =~= part);
    lemma_first(part, sub, 0);
    if sub.len() > 0 {
        lemma_last(part, sub, part.len() as int);
    }
}

/// Stripping takes bytes of the set from the ends and nothing else, and leaves
/// none of them at an end that it strips.
pub proof fn law_strip_takes_only_the_ends(side: StripSide, bytes: Seq<u8>, chars: Option<Seq<u8>>) -> (cut: (
    Seq<u8>,
    Seq<u8>,
))
    ensures
        ({
            let kept = stripped(side, bytes, chars);
            &&& cut.0 + kept + cut.1 == bytes
            &&& forall|i: int| 0 <= i < cut.0.len() ==> strippable(#[trigger] cut.0[i], chars)
            &&& forall|i: int| 0 <= i < cut.1.len() ==> strippable(#[trigger] cut.1[i], chars)
            &&& side is Start ==> cut.1.len() == 0
            &&& side is End ==> cut.0.len() == 0
            &&& kept.len() > 0 && !(side is End) ==> !strippable(kept[0], chars)
            &&& kept.len() > 0 && !(side is Start) ==> !strippable(kept.last(), chars)
        }),
{
    let len = bytes.len() as int;
    let start = kept_from(bytes, chars, 0);
    let end = kept_until(bytes, chars, len);
    lemma_strip_start(bytes, chars, 0);
    lemma_strip_end(bytes, chars, len);
    let kept = stripped(side, bytes, chars);
    if side is Start {
        assert(bytes.subrange(0, start) + kept + Seq::<u8>::empty() =~= bytes);
        (bytes.subrange(0, start), Seq::empty())
    } else if side is End {
        assert(Seq::<u8>::empty() + kept + bytes.subrange(end, len) =~= bytes);
        (Seq::empty(), bytes.subrange(end, len))
    } else if start == len {
        assert(bytes + kept + Seq::<u8>::empty() =~= bytes);
        (bytes, Seq::empty())
    } else {
        assert(start < end) by {
            if end <= start {
                assert(strippable(bytes[start], chars));
            }
        }
        assert(bytes.subrange(0, start) + kept + bytes.subrange(end, len) =~= bytes);
        (bytes.subrange(0, start), bytes.subrange(end, len))
    }
}

proof fn lemma_strip_start(bytes: Seq<u8>, chars: Option<Seq<u8>>, from: int)
    requires
        0 <= from <= bytes.len(),
    ensures
        from <= kept_from(bytes, chars, from) <= bytes.len(),
        kept_from(bytes, chars, from) < bytes.len() ==> !strippable(bytes[kept_from(bytes, chars, from)], chars),
        forall|j: int| from <= j < kept_from(bytes, chars, from) ==> strippable(#[trigger] bytes[j], chars),
    decreases bytes.len() - from,
{
    if from < bytes.len() && strippable(bytes[from], chars) {
        lemma_strip_start(bytes, chars, from + 1);
    }
}

proof fn lemma_strip_end(bytes: Seq<u8>, chars: Option<Seq<u8>>, end: int)
    requires
        0 <= end <= bytes.len(),
    ensures
        0 <= kept_until(bytes, chars, end) <= end,
        kept_until(bytes, chars, end) > 0 ==> !strippable(bytes[kept_until(bytes, chars, end) - 1], chars),
        forall|j: int| kept_until(bytes, chars, end) <= j < end ==> strippable(#[trigger] bytes[j], chars),
    decreases end,
{
    if end > 0 && strippable(bytes[end - 1], chars) {
        lemma_strip_end(bytes, chars, end - 1);
    }
}

/// `removeprefix` takes the prefix from bytes that start with it and
/// `removesuffix` the suffix, and else the bytes stay as they are.
pub proof fn law_affixes_are_removed(vm: VmModel, rest: Seq<u8>, value: Value, affix: Seq<u8>, bytes: Seq<u8>)
    requires
        vm.bytes_of(value) == Some(affix),
    ensures
        remove_model(vm, affix + rest, given(seq![value]), false) == Ok::<MadeModel, ErrorModel>(MadeModel::Bytes(rest)),
        remove_model(vm, rest + affix, given(seq![value]), true) == Ok::<MadeModel, ErrorModel>(MadeModel::Bytes(rest)),
        bytes.len() < affix.len() || bytes.take(affix.len() as int) != affix ==> remove_model(
            vm,
            bytes,
            given(seq![value]),
            false,
        ) == Ok::<MadeModel, ErrorModel>(MadeModel::Bytes(bytes)),
        bytes.len() < affix.len() || bytes.skip(bytes.len() - affix.len()) != affix ==> remove_model(
            vm,
            bytes,
            given(seq![value]),
            true,
        ) == Ok::<MadeModel, ErrorModel>(MadeModel::Bytes(bytes)),
{
    let front = affix + rest;
    let back = rest + affix;
    assert(front.subrange(0, affix.len() as int) =~= affix);
    assert(front.subrange(affix.len() as int, front.len() as int) =~= rest);
    assert(back.subrange(back.len() - affix.len(), back.len() as int) =~= affix);
    assert(back.subrange(0, back.len() - affix.len()) =~= rest);
    if bytes.len() >= affix.len() {
        assert(bytes.subrange(0, affix.len() as int) =~= bytes.take(affix.len() as int));
        assert(bytes.subrange(bytes.len() - affix.len(), bytes.len() as int) =~= bytes.skip(bytes.len() - affix.len()));
    }
}

/// `startswith` and `endswith` say whether the bytes start or end so.
pub proof fn law_affixes_are_seen(vm: VmModel, bytes: Seq<u8>, value: Value, affix: Seq<u8>)
    requires
        vm.bytes_of(value) == Some(affix),
    ensures
        affix_model(vm, bytes, given(seq![value]), false) == Ok::<MadeModel, ErrorModel>(
            MadeModel::Plain(Value::Bool(affix.len() <= bytes.len() && bytes.take(affix.len() as int) == affix)),
        ),
        affix_model(vm, bytes, given(seq![value]), true) == Ok::<MadeModel, ErrorModel>(
            MadeModel::Plain(
                Value::Bool(affix.len() <= bytes.len() && bytes.skip(bytes.len() - affix.len()) == affix),
            ),
        ),
{
    assert(bytes.subrange(0, bytes.len() as int) =~= bytes);
    let list = seq![affix];
    assert(list[0] == affix);
    if affix.len() <= bytes.len() {
        assert(bytes.subrange(0, affix.len() as int) =~= bytes.take(affix.len() as int));
        assert(bytes.subrange(bytes.len() - affix.len(), bytes.len() as int) =~= bytes.skip(bytes.len() - affix.len()));
    }
    assert(any_affix(bytes, list, false) == has_prefix(bytes, affix));
    assert(any_affix(bytes, list, true) == has_suffix(bytes, affix));
}

/// All of the bytes are this one.
pub open spec fn all_of(bytes: Seq<u8>, byte: u8) -> bool {
    forall|i: int| 0 <= i < bytes.len() ==> (#[trigger] bytes[i]) == byte
}

/// Justifying puts fill bytes around the bytes and nothing else: behind them for
/// `ljust`, before them for `rjust`, and half on each side for `center`, with the
/// odd one behind. `zfill` puts zeros before them, but behind a sign. Bytes that
/// are wide enough stay as they are.
pub proof fn law_justifying_puts_fill_around(bytes: Seq<u8>, width: int, fill: u8) -> (pads: (Seq<u8>, Seq<u8>))
    ensures
        width <= bytes.len() ==> forall|how: Justify| #[trigger] justified(how, bytes, width, fill) == bytes,
        width > bytes.len() ==> {
            let pad = width - bytes.len();
            &&& justified(Justify::Left, bytes, width, fill) == bytes + (pads.0 + pads.1)
            &&& justified(Justify::Right, bytes, width, fill) == (pads.0 + pads.1) + bytes
            &&& justified(Justify::Center, bytes, width, fill) == pads.0 + bytes + pads.1
            &&& all_of(pads.0, fill) && all_of(pads.1, fill)
            &&& pads.0.len() + pads.1.len() == pad
            &&& pads.0.len() <= pads.1.len() <= pads.0.len() + 1
            &&& bytes.len() > 0 && (bytes[0] == 43 || bytes[0] == 45) ==> {
                let wide = justified(Justify::Zeros, bytes, width, fill);
                &&& wide[0] == bytes[0]
                &&& all_of(wide.subrange(1, 1 + pad), 48)
                &&& wide.skip(1 + pad) == bytes.skip(1)
            }
            &&& bytes.len() == 0 || (bytes[0] != 43 && bytes[0] != 45) ==> justified(Justify::Zeros, bytes, width, fill)
                == justified(Justify::Right, bytes, width, 48)
        },
{
    let pad = width - bytes.len();
    if pad > 0 {
        let a = filled(fill, pad / 2);
        let b = filled(fill, pad - pad / 2);
        assert(a + b =~= filled(fill, pad));
        if bytes.len() > 0 && (bytes[0] == 43 || bytes[0] == 45) {
            let wide = justified(Justify::Zeros, bytes, width, fill);
            assert(wide.skip(1 + pad) =~= bytes.skip(1));
        }
        (a, b)
    } else {
        (Seq::empty(), Seq::empty())
    }
}

/// `join` puts the separator between each two items and nothing else.
pub proof fn law_join_puts_the_separator_between(
    vm: VmModel,
    sep: Seq<u8>,
    items: Seq<Value>,
    parts: Seq<Seq<u8>>,
    i: int,
)
    requires
        0 <= i <= items.len(),
        parts.len() == items.len(),
        forall|j: int| 0 <= j < items.len() ==> vm.bytes_of(#[trigger] items[j]) == Some(parts[j]),
    ensures
        joined_items(vm, sep, items, None, i, joined(parts.take(i), sep)) == Ok::<Seq<u8>, ErrorModel>(joined(parts, sep)),
    decreases items.len() - i,
{
    if i < items.len() {
        let more = parts.take(i + 1);
        assert(more.drop_last() =~= parts.take(i));
        assert(vm.bytes_of(items[i]) == Some(parts[i]));
        if i == 0 {
            assert(joined(parts.take(0), sep) =~= Seq::<u8>::empty());
            assert(Seq::<u8>::empty() + parts[0] =~= parts[0]);
            assert(joined(more, sep) == parts[0]);
        }
        law_join_puts_the_separator_between(vm, sep, items, parts, i + 1);
    } else {
        assert(parts.take(i) =~= parts);
    }
}

/// What the questions about bytes mean. Of no bytes only the last one holds.
pub proof fn law_questions_about_bytes(bytes: Seq<u8>)
    ensures
        answer(BytesPredicate::Isalpha, bytes) <==> bytes.len() > 0 && forall|i: int|
            0 <= i < bytes.len() ==> 65 <= #[trigger] bytes[i] <= 90 || 97 <= bytes[i] <= 122,
        answer(BytesPredicate::Isdigit, bytes) <==> bytes.len() > 0 && forall|i: int|
            0 <= i < bytes.len() ==> 48 <= #[trigger] bytes[i] <= 57,
        answer(BytesPredicate::Isalnum, bytes) <==> bytes.len() > 0 && forall|i: int|
            0 <= i < bytes.len() ==> 65 <= #[trigger] bytes[i] <= 90 || 97 <= bytes[i] <= 122 || 48 <= bytes[i] <= 57,
        answer(BytesPredicate::Isspace, bytes) <==> bytes.len() > 0 && all_space(bytes),
        answer(BytesPredicate::Islower, bytes) ==> exists|i: int| 0 <= i < bytes.len() && 97 <= #[trigger] bytes[i] <= 122,
        answer(BytesPredicate::Islower, bytes) ==> forall|i: int|
            0 <= i < bytes.len() ==> !(65 <= #[trigger] bytes[i] <= 90),
        answer(BytesPredicate::Isupper, bytes) ==> exists|i: int| 0 <= i < bytes.len() && 65 <= #[trigger] bytes[i] <= 90,
        answer(BytesPredicate::Isupper, bytes) ==> forall|i: int|
            0 <= i < bytes.len() ==> !(97 <= #[trigger] bytes[i] <= 122),
        answer(BytesPredicate::Isascii, bytes) <==> forall|i: int| 0 <= i < bytes.len() ==> #[trigger] bytes[i] < 128,
{
    if bytes.len() > 0 {
        assert(counts(BytesPredicate::Isalpha, bytes[0]));
        assert(counts(BytesPredicate::Isdigit, bytes[0]));
        assert(counts(BytesPredicate::Isalnum, bytes[0]));
        assert(counts(BytesPredicate::Isspace, bytes[0]));
    }
    assert(forall|i: int|
        0 <= i < bytes.len() ==> #[trigger] agrees(BytesPredicate::Isalpha, bytes, i) == letter(bytes[i]));
    if answer(BytesPredicate::Isalpha, bytes) {
        assert forall|i: int| 0 <= i < bytes.len() implies 65 <= #[trigger] bytes[i] <= 90 || 97 <= bytes[i] <= 122 by {
            assert(agrees(BytesPredicate::Isalpha, bytes, i));
        }
    }
    if answer(BytesPredicate::Isdigit, bytes) {
        assert forall|i: int| 0 <= i < bytes.len() implies 48 <= #[trigger] bytes[i] <= 57 by {
            assert(agrees(BytesPredicate::Isdigit, bytes, i));
        }
    }
    if answer(BytesPredicate::Isalnum, bytes) {
        assert forall|i: int| 0 <= i < bytes.len() implies 65 <= #[trigger] bytes[i] <= 90 || 97 <= bytes[i] <= 122 || 48
            <= bytes[i] <= 57 by {
            assert(agrees(BytesPredicate::Isalnum, bytes, i));
        }
    }
    if answer(BytesPredicate::Isspace, bytes) {
        assert forall|i: int| 0 <= i < bytes.len() implies whitespace(#[trigger] bytes[i]) by {
            assert(agrees(BytesPredicate::Isspace, bytes, i));
        }
    }
    if answer(BytesPredicate::Islower, bytes) {
        assert forall|i: int| 0 <= i < bytes.len() implies !(65 <= #[trigger] bytes[i] <= 90) by {
            assert(agrees(BytesPredicate::Islower, bytes, i));
        }
    }
    if answer(BytesPredicate::Isupper, bytes) {
        assert forall|i: int| 0 <= i < bytes.len() implies !(97 <= #[trigger] bytes[i] <= 122) by {
            assert(agrees(BytesPredicate::Isupper, bytes, i));
        }
    }
    if answer(BytesPredicate::Isascii, bytes) {
        assert forall|i: int| 0 <= i < bytes.len() implies #[trigger] bytes[i] < 128 by {
            assert(agrees(BytesPredicate::Isascii, bytes, i));
        }
    }
}

/// Changing the case moves letters between the two alphabets and leaves every
/// other byte. `lower` leaves no capital, `upper` no small letter. `capitalize`
/// is `upper` on the first byte and `lower` on the others. `title` is `lower` on
/// a byte that stands behind a letter and `upper` on any other.
pub proof fn law_changing_the_case(bytes: Seq<u8>, i: int)
    requires
        0 <= i < bytes.len(),
    ensures
        ({
            let lower = case_changed(CaseChange::Lower, bytes);
            let upper = case_changed(CaseChange::Upper, bytes);
            let capital = case_changed(CaseChange::Capitalize, bytes);
            let title = case_changed(CaseChange::Title, bytes);
            let swapped = case_changed(CaseChange::Swapcase, bytes);
            &&& lower.len() == bytes.len() && upper.len() == bytes.len() && capital.len() == bytes.len()
            &&& 65 <= bytes[i] <= 90 ==> lower[i] == bytes[i] + 32 && upper[i] == bytes[i] && swapped[i] == bytes[i] + 32
            &&& 97 <= bytes[i] <= 122 ==> upper[i] == bytes[i] - 32 && lower[i] == bytes[i] && swapped[i] == bytes[i] - 32
            &&& !(65 <= bytes[i] <= 90) && !(97 <= bytes[i] <= 122) ==> lower[i] == bytes[i] && upper[i] == bytes[i]
                && swapped[i] == bytes[i]
            &&& capital[0] == upper[0] && (i > 0 ==> capital[i] == lower[i])
            &&& title[0] == upper[0]
            &&& i > 0 && (65 <= bytes[i - 1] <= 90 || 97 <= bytes[i - 1] <= 122) ==> title[i] == lower[i]
            &&& i > 0 && !(65 <= bytes[i - 1] <= 90 || 97 <= bytes[i - 1] <= 122) ==> title[i] == upper[i]
        }),
{
}

/// A byte is found by its place from the start, or from the end where the place
/// is negative.
pub proof fn law_bytes_are_found_by_their_place(bytes: Seq<u8>, index: int)
    ensures
        0 <= index < bytes.len() ==> byte_at(bytes, index) == Some(bytes[index]),
        -bytes.len() <= index < 0 ==> byte_at(bytes, index) == Some(bytes[bytes.len() + index]),
        index >= bytes.len() || index < -bytes.len() ==> byte_at(bytes, index) is None,
{
}

} // verus!
