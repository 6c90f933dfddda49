//! What the methods of byte strings compute.

use crate::exceptions::{raise, raise2, raised, ErrorModel, ExcType, RunResult};
use crate::scan::{all_bytes, append_bytes, copied, lemma_all_bytes_push, reversed, wide};
use crate::text::{decimal, decimal_text};
use vstd::prelude::*;
use vstd::slice::{slice_subrange, slice_to_vec};

verus! {

/// The byte is white space: a space, a tab, a line feed, a vertical tab, a
/// form feed or a carriage return.
pub open spec fn whitespace(byte: u8) -> bool {
    byte == 32 || 9 <= byte <= 13
}

/// The byte is an upper-case letter.
pub open spec fn upper_case(byte: u8) -> bool {
    65 <= byte <= 90
}

/// The byte is a lower-case letter.
pub open spec fn lower_case(byte: u8) -> bool {
    97 <= byte <= 122
}

/// The byte is a letter.
pub open spec fn letter(byte: u8) -> bool {
    upper_case(byte) || lower_case(byte)
}

/// The byte is a digit.
pub open spec fn digit(byte: u8) -> bool {
    48 <= byte <= 57
}

/// The byte with an upper-case letter made lower case.
pub open spec fn lowered(byte: u8) -> u8 {
    if upper_case(byte) {
        (byte + 32) as u8
    } else {
        byte
    }
}

/// The byte with a lower-case letter made upper case.
pub open spec fn raised_case(byte: u8) -> u8 {
    if lower_case(byte) {
        (byte - 32) as u8
    } else {
        byte
    }
}

/// Says whether a byte is white space.
pub fn is_py_whitespace(byte: u8) -> (found: bool)
    ensures
        found == whitespace(byte),
{
    byte == 32 || (9 <= byte && byte <= 13)
}

fn is_upper(byte: u8) -> (found: bool)
    ensures
        found == upper_case(byte),
{
    65 <= byte && byte <= 90
}

fn is_lower(byte: u8) -> (found: bool)
    ensures
        found == lower_case(byte),
{
    97 <= byte && byte <= 122
}

fn is_letter(byte: u8) -> (found: bool)
    ensures
        found == letter(byte),
{
    is_upper(byte) || is_lower(byte)
}

fn to_lower(byte: u8) -> (changed: u8)
    ensures
        changed == lowered(byte),
{
    if is_upper(byte) {
        byte + 32
    } else {
        byte
    }
}

fn to_upper(byte: u8) -> (changed: u8)
    ensures
        changed == raised_case(byte),
{
    if is_lower(byte) {
        byte - 32
    } else {
        byte
    }
}

/// How a method changes the case of a byte string.
#[derive(Clone, Copy, Debug, PartialEq, Eq, Structural)]
pub enum CaseChange {
    Lower,
    Upper,
    Capitalize,
    Title,
    Swapcase,
}

/// The byte at a place behind a change of case. A title has upper case where
/// no letter stands before.
pub open spec fn changed_byte(change: CaseChange, bytes: Seq<u8>, i: int) -> u8 {
    match change {
        CaseChange::Lower => lowered(bytes[i]),
        CaseChange::Upper => raised_case(bytes[i]),
        CaseChange::Capitalize => if i == 0 {
            raised_case(bytes[i])
        } else {
            lowered(bytes[i])
        },
        CaseChange::Title => if i > 0 && letter(bytes[i - 1]) {
            lowered(bytes[i])
        } else {
            raised_case(bytes[i])
        },
        CaseChange::Swapcase => if upper_case(bytes[i]) {
            lowered(bytes[i])
        } else {
            raised_case(bytes[i])
        },
    }
}

/// The bytes behind a change of case.
pub open spec fn case_changed(change: CaseChange, bytes: Seq<u8>) -> Seq<u8> {
    Seq::new(bytes.len(), |i: int| changed_byte(change, bytes, i))
}

/// Changes the case of a byte string.
pub fn bytes_change_case(change: CaseChange, bytes: &[u8]) -> (changed: Vec<u8>)
    ensures
        changed@ == case_changed(change, bytes@),
{
    let mut out: Vec<u8> = Vec::new();
    let mut i: usize = 0;
    let mut after_letter: bool = false;
    while i < bytes.len()
        invariant
            i <= bytes@.len(),
            after_letter == (i > 0 && letter(bytes@[i - 1])),
            out@.len() == i,
            forall|j: int| 0 <= j < i ==> out@[j] == changed_byte(change, bytes@, j),
        decreases bytes@.len() - i,
    {
        let byte: u8 = bytes[i];
        let up: bool = match change {
            CaseChange::Lower => false,
            CaseChange::Upper => true,
            CaseChange::Capitalize => i == 0,
            CaseChange::Title => !after_letter,
            CaseChange::Swapcase => !is_upper(byte),
        };
        if up {
            out.push(to_upper(byte));
        } else {
            out.push(to_lower(byte));
        }
        after_letter = is_letter(byte);
        i = i + 1;
    }
    assert(out@ =~= case_changed(change, bytes@));
    out
}

/// A question about all bytes of a byte string.
#[derive(Clone, Copy, Debug, PartialEq, Eq, Structural)]
pub enum BytesPredicate {
    Isalpha,
    Isdigit,
    Isalnum,
    Isspace,
    Islower,
    Isupper,
    Isascii,
    Istitle,
}

/// Each letter is in upper case where no letter stands before it, and in
/// lower case where one does.
pub open spec fn titled_at(bytes: Seq<u8>, i: int) -> bool {
    &&& upper_case(bytes[i]) ==> !(i > 0 && letter(bytes[i - 1]))
    &&& lower_case(bytes[i]) ==> i > 0 && letter(bytes[i - 1])
}

/// The byte agrees with the question.
pub open spec fn agrees(predicate: BytesPredicate, bytes: Seq<u8>, i: int) -> bool {
    match predicate {
        BytesPredicate::Isalpha => letter(bytes[i]),
        BytesPredicate::Isdigit => digit(bytes[i]),
        BytesPredicate::Isalnum => letter(bytes[i]) || digit(bytes[i]),
        BytesPredicate::Isspace => whitespace(bytes[i]),
        BytesPredicate::Islower => !upper_case(bytes[i]),
        BytesPredicate::Isupper => !lower_case(bytes[i]),
        BytesPredicate::Isascii => bytes[i] <= 127,
        BytesPredicate::Istitle => titled_at(bytes, i),
    }
}

/// The byte is one of those that the question wants at least one of.
pub open spec fn counts(predicate: BytesPredicate, byte: u8) -> bool {
    match predicate {
        BytesPredicate::Islower => lower_case(byte),
        BytesPredicate::Isupper => upper_case(byte),
        BytesPredicate::Istitle => letter(byte),
        _ => true,
    }
}

/// The answer: every byte agrees and, except for `isascii`, one counts.
pub open spec fn answer(predicate: BytesPredicate, bytes: Seq<u8>) -> bool {
    &&& forall|i: int| 0 <= i < bytes.len() ==> #[trigger] agrees(predicate, bytes, i)
    &&& predicate is Isascii || exists|i: int| 0 <= i < bytes.len() && counts(predicate, #[trigger] bytes[i])
}

/// Answers a question about all bytes of a byte string.
pub fn bytes_test(predicate: BytesPredicate, bytes: &[u8]) -> (holds: bool)
    ensures
        holds == answer(predicate, bytes@),
{
    let mut i: usize = 0;
    let mut after_letter: bool = false;
    let mut counted: bool = false;
    while i < bytes.len()
        invariant
            i <= bytes@.len(),
            after_letter == (i > 0 && letter(bytes@[i - 1])),
            forall|j: int| 0 <= j < i ==> #[trigger] agrees(predicate, bytes@, j),
            counted == exists|j: int| 0 <= j < i && counts(predicate, #[trigger] bytes@[j]),
        decreases bytes@.len() - i,
    {
        let byte: u8 = bytes[i];
        let is_digit: bool = 48 <= byte && byte <= 57;
        let fits: bool = match predicate {
            BytesPredicate::Isalpha => is_letter(byte),
            BytesPredicate::Isdigit => is_digit,
            BytesPredicate::Isalnum => is_letter(byte) || is_digit,
            BytesPredicate::Isspace => is_py_whitespace(byte),
            BytesPredicate::Islower => !is_upper(byte),
            BytesPredicate::Isupper => !is_lower(byte),
            BytesPredicate::Isascii => byte <= 127,
            BytesPredicate::Istitle => (!is_upper(byte) || !after_letter) && (!is_lower(byte) || after_letter),
        };
        assert(fits == agrees(predicate, bytes@, i as int));
        if !fits {
            return false;
        }
        let one: bool = match predicate {
            BytesPredicate::Islower => is_lower(byte),
            BytesPredicate::Isupper => is_upper(byte),
            BytesPredicate::Istitle => is_letter(byte),
            _ => true,
        };
        assert(one == counts(predicate, bytes@[i as int]));
        counted = counted || one;
        after_letter = is_letter(byte);
        i = i + 1;
    }
    match predicate {
        BytesPredicate::Isascii => true,
        _ => counted,
    }
}

/// The byte is stripped: it is one of `chars` or, where none are given, white
/// space.
pub open spec fn strippable(byte: u8, chars: Option<Seq<u8>>) -> bool {
    match chars {
        Some(chars) => chars.contains(byte),
        None => whitespace(byte),
    }
}

/// The first place at or behind `from` whose byte is not stripped.
pub open spec fn kept_from(bytes: Seq<u8>, chars: Option<Seq<u8>>, from: int) -> int
    decreases bytes.len() - from,
{
    if from < bytes.len() && strippable(bytes[from], chars) {
        kept_from(bytes, chars, from + 1)
    } else {
        from
    }
}

/// The place behind the last byte before `end` that is not stripped.
pub open spec fn kept_until(bytes: Seq<u8>, chars: Option<Seq<u8>>, end: int) -> int
    decreases end,
{
    if end > 0 && strippable(bytes[end - 1], chars) {
        kept_until(bytes, chars, end - 1)
    } else {
        end
    }
}

/// Which ends are stripped.
#[derive(Clone, Copy, Debug, PartialEq, Eq, Structural)]
pub enum StripSide {
    Both,
    Start,
    End,
}

/// The bytes without those that are stripped at the ends.
pub open spec fn stripped(side: StripSide, bytes: Seq<u8>, chars: Option<Seq<u8>>) -> Seq<u8> {
    let start = kept_from(bytes, chars, 0);
    let end = kept_until(bytes, chars, bytes.len() as int);
    match side {
        StripSide::Start => bytes.subrange(start, bytes.len() as int),
        StripSide::End => bytes.subrange(0, end),
        StripSide::Both => if start == bytes.len() {
            Seq::empty()
        } else {
            bytes.subrange(start, end)
        },
    }
}

/// Says whether a byte is one of those given.
pub fn contains_byte(bytes: &[u8], byte: u8) -> (found: bool)
    ensures
        found == bytes@.contains(byte),
{
    let mut i: usize = 0;
    while i < bytes.len()
        invariant
            i <= bytes@.len(),
            forall|j: int| 0 <= j < i ==> bytes@[j] != byte,
        decreases bytes@.len() - i,
    {
        if bytes[i] == byte {
            return true;
        }
        i = i + 1;
    }
    false
}

/// The bytes to strip, as a mathematical value.
pub open spec fn chars_model(chars: Option<&[u8]>) -> Option<Seq<u8>> {
    match chars {
        Some(chars) => Some(chars@),
        None => None,
    }
}

fn is_strippable(byte: u8, chars: Option<&[u8]>) -> (found: bool)
    ensures
        found == strippable(byte, chars_model(chars)),
{
    match chars {
        Some(chars) => contains_byte(chars, byte),
        None => is_py_whitespace(byte),
    }
}

/// Finds the first place at or behind `from` whose byte is not stripped.
fn skip_start(bytes: &[u8], chars: Option<&[u8]>, from: usize) -> (start: usize)
    requires
        from <= bytes@.len(),
    ensures
        start == kept_from(bytes@, chars_model(chars), from as int),
        from <= start <= bytes@.len(),
        start < bytes@.len() ==> !strippable(bytes@[start as int], chars_model(chars)),
{
    let mut i: usize = from;
    while i < bytes.len() && is_strippable(bytes[i], chars)
        invariant
            from <= i <= bytes@.len(),
            kept_from(bytes@, chars_model(chars), i as int) == kept_from(bytes@, chars_model(chars), from as int),
        decreases bytes@.len() - i,
    {
        i = i + 1;
    }
    i
}

/// Finds the place behind the last byte before `from` that is not stripped.
fn skip_end(bytes: &[u8], chars: Option<&[u8]>, from: usize) -> (end: usize)
    requires
        from <= bytes@.len(),
    ensures
        end == kept_until(bytes@, chars_model(chars), from as int),
        end <= from,
        end > 0 ==> !strippable(bytes@[end - 1], chars_model(chars)),
        forall|j: int| end <= j < from ==> strippable(#[trigger] bytes@[j], chars_model(chars)),
{
    let mut i: usize = from;
    while i > 0 && is_strippable(bytes[i - 1], chars)
        invariant
            i <= from <= bytes@.len(),
            kept_until(bytes@, chars_model(chars), i as int) == kept_until(bytes@, chars_model(chars), from as int),
            forall|j: int| i <= j < from ==> strippable(#[trigger] bytes@[j], chars_model(chars)),
        decreases i,
    {
        i = i - 1;
    }
    i
}

/// Strips the ends of a byte string.
pub fn bytes_strip_ends(side: StripSide, bytes: &[u8], chars: Option<&[u8]>) -> (kept: Vec<u8>)
    ensures
        kept@ == stripped(side, bytes@, chars_model(chars)),
{
    match side {
        StripSide::Start => {
            let start: usize = skip_start(bytes, chars, 0);
            copied(bytes, start, bytes.len())
        },
        StripSide::End => {
            let end: usize = skip_end(bytes, chars, bytes.len());
            copied(bytes, 0, end)
        },
        StripSide::Both => {
            let start: usize = skip_start(bytes, chars, 0);
            if start == bytes.len() {
                return Vec::new();
            }
            let end: usize = skip_end(bytes, chars, bytes.len());
            assert(start < end) by {
                if end <= start {
                    assert(strippable(bytes@[start as int], chars_model(chars)));
                }
            }
            copied(bytes, start, end)
        },
    }
}

/// Stripping what was stripped changes nothing.
pub proof fn law_strip_twice(side: StripSide, bytes: Seq<u8>, chars: Option<Seq<u8>>)
    ensures
        stripped(side, stripped(side, bytes, chars), chars) == stripped(side, bytes, chars),
{
    let once = stripped(side, bytes, chars);
    lemma_kept_from(bytes, chars, 0);
    lemma_kept_until(bytes, chars, bytes.len() as int);
    let start = kept_from(bytes, chars, 0);
    let end = kept_until(bytes, chars, bytes.len() as int);
    if side is Both && start < bytes.len() {
        assert(start < end) by {
            if end <= start {
                assert(strippable(bytes[start], chars));
            }
        }
        assert(once[0] == bytes[start]);
        assert(once[once.len() - 1] == bytes[end - 1]);
    }
    if side is Start && start < bytes.len() {
        assert(once[0] == bytes[start]);
    }
    if side is End && end > 0 {
        assert(once[once.len() - 1] == bytes[end - 1]);
    }
    assert(stripped(side, once, chars) =~= once);
}

/// What `kept_from` finds.
proof fn lemma_kept_from(bytes: Seq<u8>, chars: Option<Seq<u8>>, from: int)
    requires
        0 <= from <= bytes.len(),
    ensures
        from <= kept_from(bytes, chars, from) <= bytes.len(),
        kept_from(bytes, chars, from) < bytes.len() ==> !strippable(bytes[kept_from(bytes, chars, from)], chars),
        forall|j: int| from <= j < kept_from(bytes, chars, from) ==> strippable(#[trigger] bytes[j], chars),
    decreases bytes.len() - from,
{
    if from < bytes.len() && strippable(bytes[from], chars) {
        lemma_kept_from(bytes, chars, from + 1);
    }
}

/// What `kept_until` finds.
proof fn lemma_kept_until(bytes: Seq<u8>, chars: Option<Seq<u8>>, end: int)
    requires
        0 <= end <= bytes.len(),
    ensures
        0 <= kept_until(bytes, chars, end) <= end,
        kept_until(bytes, chars, end) > 0 ==> !strippable(bytes[kept_until(bytes, chars, end) - 1], chars),
        forall|j: int| kept_until(bytes, chars, end) <= j < end ==> strippable(#[trigger] bytes[j], chars),
    decreases end,
{
    if end > 0 && strippable(bytes[end - 1], chars) {
        lemma_kept_until(bytes, chars, end - 1);
    }
}

/// The first place at or behind `from` that holds white space.
pub open spec fn word_end(bytes: Seq<u8>, from: int) -> int
    decreases bytes.len() - from,
{
    if from < bytes.len() && !whitespace(bytes[from]) {
        word_end(bytes, from + 1)
    } else {
        from
    }
}

/// The place behind the last white space before `end`.
pub open spec fn word_start(bytes: Seq<u8>, end: int) -> int
    decreases end,
{
    if end > 0 && !whitespace(bytes[end - 1]) {
        word_start(bytes, end - 1)
    } else {
        end
    }
}

/// The words at or behind `from`. Behind `splits` of them, where that is
/// given, the rest is one word.
pub open spec fn words_from(bytes: Seq<u8>, from: int, splits: Option<nat>) -> Seq<Seq<u8>>
    decreases bytes.len() - from,
{
    let start = kept_from(bytes, None, from);
    let end = word_end(bytes, start);
    if start < from || start >= bytes.len() {
        Seq::empty()
    } else if splits == Some(0nat) || end <= start || end > bytes.len() {
        seq![bytes.subrange(start, bytes.len() as int)]
    } else {
        seq![bytes.subrange(start, end)] + words_from(
            bytes,
            end,
            match splits {
                Some(n) => Some((n - 1) as nat),
                None => None,
            },
        )
    }
}

/// The words before `until`. Before the last `splits` of them the rest is one
/// word.
pub open spec fn words_before(bytes: Seq<u8>, until: int, splits: nat) -> Seq<Seq<u8>>
    decreases until,
{
    let end = kept_until(bytes, None, until);
    let start = word_start(bytes, end);
    if end <= 0 || end > until {
        Seq::empty()
    } else if splits == 0 || start < 0 || start >= end {
        seq![bytes.subrange(0, end)]
    } else {
        words_before(bytes, start, (splits - 1) as nat).push(bytes.subrange(start, end))
    }
}

/// Finds the first place at or behind `from` that holds white space.
fn find_word_end(bytes: &[u8], from: usize) -> (end: usize)
    requires
        from <= bytes@.len(),
    ensures
        end == word_end(bytes@, from as int),
        from <= end <= bytes@.len(),
        from < bytes@.len() && !whitespace(bytes@[from as int]) ==> from < end,
{
    let mut i: usize = from;
    while i < bytes.len() && !is_py_whitespace(bytes[i])
        invariant
            from <= i <= bytes@.len(),
            word_end(bytes@, i as int) == word_end(bytes@, from as int),
            i > from || i == from,
        decreases bytes@.len() - i,
    {
        i = i + 1;
    }
    i
}

/// Finds the place behind the last white space before `from`.
fn find_word_start(bytes: &[u8], from: usize) -> (start: usize)
    requires
        from <= bytes@.len(),
    ensures
        start == word_start(bytes@, from as int),
        start <= from,
        from > 0 && !whitespace(bytes@[from - 1]) ==> start < from,
{
    let mut i: usize = from;
    while i > 0 && !is_py_whitespace(bytes[i - 1])
        invariant
            i <= from <= bytes@.len(),
            word_start(bytes@, i as int) == word_start(bytes@, from as int),
        decreases i,
    {
        i = i - 1;
    }
    i
}

/// Splits a byte string at white space, at the first `maxsplit` runs of it or
/// at all.
fn split_words(bytes: &[u8], maxsplit: Option<usize>) -> (words: Vec<Vec<u8>>)
    ensures
        all_bytes(words@) == words_from(bytes@, 0, wide(maxsplit)),
{
    let mut words: Vec<Vec<u8>> = Vec::new();
    let mut from: usize = 0;
    let mut left: Option<usize> = maxsplit;
    let ghost whole = words_from(bytes@, 0, wide(maxsplit));
    assert(all_bytes(words@) + whole =~= whole);
    loop
        invariant
            from <= bytes@.len(),
            whole == words_from(bytes@, 0, wide(maxsplit)),
            all_bytes(words@) + words_from(bytes@, from as int, wide(left)) == whole,
        decreases bytes@.len() - from,
    {
        let ghost before = words@;
        let start: usize = skip_start(bytes, None, from);
        if start >= bytes.len() {
            assert(all_bytes(words@) + Seq::<Seq<u8>>::empty() =~= all_bytes(words@));
            return words;
        }
        let more: bool = match left {
            Some(n) => n > 0,
            None => true,
        };
        if !more {
            let word = copied(bytes, start, bytes.len());
            proof {
                lemma_all_bytes_push(before, word);
                assert(all_bytes(before).push(word@) =~= all_bytes(before) + seq![word@]);
            }
            words.push(word);
            return words;
        }
        let end: usize = find_word_end(bytes, start);
        let word = copied(bytes, start, end);
        proof {
            lemma_all_bytes_push(before, word);
        }
        words.push(word);
        from = end;
        left = match left {
            Some(n) => Some(n - 1),
            None => None,
        };
        proof {
            let rest = words_from(bytes@, end as int, wide(left));
            assert(all_bytes(before).push(word@) + rest =~= all_bytes(before) + (seq![word@] + rest));
        }
    }
}

/// Splits a byte string at every run of white space.
pub fn bytes_split_whitespace(bytes: &[u8]) -> (words: Vec<Vec<u8>>)
    ensures
        all_bytes(words@) == words_from(bytes@, 0, None),
{
    split_words(bytes, None)
}

/// Splits a byte string at the first `maxsplit` runs of white space.
pub fn bytes_splitn_whitespace(bytes: &[u8], maxsplit: usize) -> (words: Vec<Vec<u8>>)
    ensures
        all_bytes(words@) == words_from(bytes@, 0, Some(maxsplit as nat)),
{
    split_words(bytes, Some(maxsplit))
}

/// Splits a byte string at the last `maxsplit` runs of white space.
pub fn bytes_rsplitn_whitespace(bytes: &[u8], maxsplit: usize) -> (words: Vec<Vec<u8>>)
    ensures
        all_bytes(words@) == words_before(bytes@, bytes@.len() as int, maxsplit as nat),
{
    let mut words: Vec<Vec<u8>> = Vec::new();
    let mut until: usize = bytes.len();
    let mut left: usize = maxsplit;
    let ghost whole = words_before(bytes@, bytes@.len() as int, maxsplit as nat);
    assert(whole + all_bytes(words@).reverse() =~= whole);
    loop
        invariant
            until <= bytes@.len(),
            whole == words_before(bytes@, bytes@.len() as int, maxsplit as nat),
            words_before(bytes@, until as int, left as nat) + all_bytes(words@).reverse() == whole,
        decreases until,
    {
        let ghost before = words@;
        let end: usize = skip_end(bytes, None, until);
        if end == 0 {
            assert(Seq::<Seq<u8>>::empty() + all_bytes(words@).reverse() =~= all_bytes(words@).reverse());
            return reversed(words);
        }
        if left == 0 {
            let word = copied(bytes, 0, end);
            proof {
                lemma_all_bytes_push(before, word);
                assert(all_bytes(before).push(word@).reverse() =~= seq![word@] + all_bytes(before).reverse());
            }
            words.push(word);
            return reversed(words);
        }
        let start: usize = find_word_start(bytes, end);
        let word = copied(bytes, start, end);
        proof {
            lemma_all_bytes_push(before, word);
            let rest = words_before(bytes@, start as int, (left - 1) as nat);
            assert(rest.push(word@) + all_bytes(before).reverse() =~= rest + all_bytes(before).push(word@).reverse());
        }
        words.push(word);
        until = start;
        left = left - 1;
    }
}

/// The first place at or behind `from` where a line ends.
pub open spec fn line_end(bytes: Seq<u8>, from: int) -> int
    decreases bytes.len() - from,
{
    if from < bytes.len() && bytes[from] != 10 && bytes[from] != 13 {
        line_end(bytes, from + 1)
    } else {
        from
    }
}

/// The place behind a line's end: behind a line feed, a carriage return, or
/// both in that order.
pub open spec fn next_line(bytes: Seq<u8>, end: int) -> int {
    if end >= bytes.len() {
        end
    } else if bytes[end] == 13 && end + 1 < bytes.len() && bytes[end + 1] == 10 {
        end + 2
    } else {
        end + 1
    }
}

/// The lines at or behind `from`, with or without what ends them.
pub open spec fn lines_from(bytes: Seq<u8>, from: int, keepends: bool) -> Seq<Seq<u8>>
    decreases bytes.len() - from,
{
    let end = line_end(bytes, from);
    let next = next_line(bytes, end);
    if from >= bytes.len() || next <= from || next > bytes.len() {
        Seq::empty()
    } else {
        seq![
            bytes.subrange(
                from,
                if keepends {
                    next
                } else {
                    end
                },
            ),
        ] + lines_from(bytes, next, keepends)
    }
}

/// Splits a byte string into its lines.
pub fn bytes_split_lines(bytes: &[u8], keepends: bool) -> (lines: Vec<Vec<u8>>)
    ensures
        all_bytes(lines@) == lines_from(bytes@, 0, keepends),
{
    let mut lines: Vec<Vec<u8>> = Vec::new();
    let mut start: usize = 0;
    let ghost whole = lines_from(bytes@, 0, keepends);
    assert(all_bytes(lines@) + whole =~= whole);
    while start < bytes.len()
        invariant
            start <= bytes@.len(),
            all_bytes(lines@) + lines_from(bytes@, start as int, keepends) == whole,
        decreases bytes@.len() - start,
    {
        let mut end: usize = start;
        while end < bytes.len() && bytes[end] != 10 && bytes[end] != 13
            invariant
                start <= end <= bytes@.len(),
                line_end(bytes@, end as int) == line_end(bytes@, start as int),
            decreases bytes@.len() - end,
        {
            end = end + 1;
        }
        let next: usize = if end >= bytes.len() {
            end
        } else if bytes[end] == 13 && end + 1 < bytes.len() && bytes[end + 1] == 10 {
            end + 2
        } else {
            end + 1
        };
        let ghost before = lines@;
        let line = copied(
            bytes,
            start,
            if keepends {
                next
            } else {
                end
            },
        );
        proof {
            assert(start < next);
            lemma_all_bytes_push(before, line);
            let rest = lines_from(bytes@, next as int, keepends);
            assert(all_bytes(before).push(line@) + rest =~= all_bytes(before) + (seq![line@] + rest));
        }
        lines.push(line);
        start = next;
    }
    assert(all_bytes(lines@) + Seq::<Seq<u8>>::empty() =~= all_bytes(lines@));
    lines
}

/// All parts one behind the other.
pub open spec fn concatenated(parts: Seq<Seq<u8>>) -> Seq<u8>
    decreases parts.len(),
{
    if parts.len() == 0 {
        Seq::empty()
    } else {
        parts[0] + concatenated(parts.subrange(1, parts.len() as int))
    }
}

/// The lines with what ends them, one behind the other, are the whole byte
/// string.
pub proof fn law_kept_lines_make_the_whole(bytes: Seq<u8>, from: int)
    requires
        0 <= from <= bytes.len(),
    ensures
        concatenated(lines_from(bytes, from, true)) == bytes.subrange(from, bytes.len() as int),
    decreases bytes.len() - from,
{
    let lines = lines_from(bytes, from, true);
    if from < bytes.len() {
        lemma_line_end(bytes, from);
        let next = next_line(bytes, line_end(bytes, from));
        law_kept_lines_make_the_whole(bytes, next);
        assert(lines.subrange(1, lines.len() as int) =~= lines_from(bytes, next, true));
        assert(bytes.subrange(from, next) + bytes.subrange(next, bytes.len() as int) =~= bytes.subrange(
            from,
            bytes.len() as int,
        ));
    } else {
        assert(bytes.subrange(from, bytes.len() as int) =~= Seq::<u8>::empty());
    }
}

/// A line ends inside the byte string.
proof fn lemma_line_end(bytes: Seq<u8>, from: int)
    requires
        0 <= from <= bytes.len(),
    ensures
        from <= line_end(bytes, from) <= bytes.len(),
        line_end(bytes, from) < bytes.len() ==> bytes[line_end(bytes, from)] == 10 || bytes[line_end(bytes, from)]
            == 13,
    decreases bytes.len() - from,
{
    if from < bytes.len() && bytes[from] != 10 && bytes[from] != 13 {
        lemma_line_end(bytes, from + 1);
    }
}

/// The bytes start with the prefix.
pub open spec fn has_prefix(bytes: Seq<u8>, prefix: Seq<u8>) -> bool {
    prefix.len() <= bytes.len() && bytes.subrange(0, prefix.len() as int) == prefix
}

/// The bytes end with the suffix.
pub open spec fn has_suffix(bytes: Seq<u8>, suffix: Seq<u8>) -> bool {
    suffix.len() <= bytes.len() && bytes.subrange(bytes.len() - suffix.len(), bytes.len() as int) == suffix
}

/// Says whether two byte strings are the same.
pub fn same_bytes(left: &[u8], right: &[u8]) -> (same: bool)
    ensures
        same == (left@ == right@),
{
    if left.len() != right.len() {
        return false;
    }
    let mut i: usize = 0;
    while i < left.len()
        invariant
            i <= left@.len(),
            left@.len() == right@.len(),
            forall|j: int| 0 <= j < i ==> left@[j] == right@[j],
        decreases left@.len() - i,
    {
        if left[i] != right[i] {
            return false;
        }
        i = i + 1;
    }
    assert(left@ =~= right@);
    true
}

/// Says whether the bytes start with a prefix.
pub fn starts_with(bytes: &[u8], prefix: &[u8]) -> (found: bool)
    ensures
        found == has_prefix(bytes@, prefix@),
{
    prefix.len() <= bytes.len() && same_bytes(slice_subrange(bytes, 0, prefix.len()), prefix)
}

/// Says whether the bytes end with a suffix.
pub fn ends_with(bytes: &[u8], suffix: &[u8]) -> (found: bool)
    ensures
        found == has_suffix(bytes@, suffix@),
{
    suffix.len() <= bytes.len() && same_bytes(
        slice_subrange(bytes, bytes.len() - suffix.len(), bytes.len()),
        suffix,
    )
}

/// One byte, so many times.
pub open spec fn filled(byte: u8, count: int) -> Seq<u8> {
    Seq::new(
        (if count > 0 {
            count
        } else {
            0
        }) as nat,
        |i: int| byte,
    )
}

/// Which side padding goes to.
#[derive(Clone, Copy, Debug, PartialEq, Eq, Structural)]
pub enum Justify {
    Center,
    Left,
    Right,
    /// Zeros at the left, behind a sign.
    Zeros,
}

/// The bytes padded to a width. Of an odd padding round the center, the right
/// side gets more.
pub open spec fn justified(how: Justify, bytes: Seq<u8>, width: int, fill: u8) -> Seq<u8> {
    let pad = width - bytes.len();
    if pad <= 0 {
        bytes
    } else {
        match how {
            Justify::Center => filled(fill, pad / 2) + bytes + filled(fill, pad - pad / 2),
            Justify::Left => bytes + filled(fill, pad),
            Justify::Right => filled(fill, pad) + bytes,
            Justify::Zeros => if bytes.len() > 0 && (bytes[0] == 43 || bytes[0] == 45) {
                seq![bytes[0]] + filled(48, pad) + bytes.subrange(1, bytes.len() as int)
            } else {
                filled(48, pad) + bytes
            },
        }
    }
}

/// Appends a byte so many times.
fn append_filled(out: &mut Vec<u8>, byte: u8, count: usize)
    ensures
        final(out)@ == old(out)@ + filled(byte, count as int),
{
    let ghost before = out@;
    let mut i: usize = 0;
    assert(out@ =~= before + filled(byte, 0));
    while i < count
        invariant
            i <= count,
            out@ == before + filled(byte, i as int),
        decreases count - i,
    {
        out.push(byte);
        i = i + 1;
        assert(out@ =~= before + filled(byte, i as int));
    }
}

/// Pads a byte string to a width.
pub fn bytes_justify(how: Justify, bytes: &[u8], width: usize, fill: u8) -> (padded: Vec<u8>)
    ensures
        padded@ == justified(how, bytes@, width as int, fill),
{
    if width <= bytes.len() {
        return slice_to_vec(bytes);
    }
    let pad: usize = width - bytes.len();
    let mut out: Vec<u8> = Vec::new();
    match how {
        Justify::Center => {
            append_filled(&mut out, fill, pad / 2);
            append_bytes(&mut out, bytes);
            append_filled(&mut out, fill, pad - pad / 2);
        },
        Justify::Left => {
            append_bytes(&mut out, bytes);
            append_filled(&mut out, fill, pad);
        },
        Justify::Right => {
            append_filled(&mut out, fill, pad);
            append_bytes(&mut out, bytes);
        },
        Justify::Zeros => {
            if bytes.len() > 0 && (bytes[0] == 43 || bytes[0] == 45) {
                out.push(bytes[0]);
                append_filled(&mut out, 48, pad);
                append_bytes(&mut out, slice_subrange(bytes, 1, bytes.len()));
            } else {
                append_filled(&mut out, 48, pad);
                append_bytes(&mut out, bytes);
            }
        },
    }
    assert(out@ =~= justified(how, bytes@, width as int, fill));
    out
}

/// A byte string is padded to exactly the width, or left as it is where it is
/// as long already.
pub proof fn law_justified_length(how: Justify, bytes: Seq<u8>, width: int, fill: u8)
    ensures
        justified(how, bytes, width, fill).len() == if width > bytes.len() {
            width
        } else {
            bytes.len() as int
        },
{
}

/// The hexadecimal digit of a number below sixteen.
pub open spec fn hex_digit(number: u8) -> char {
    if number < 10 {
        (('0' as int) + number) as char
    } else {
        (('a' as int) + number - 10) as char
    }
}

/// A separator stands before the byte at this place: groups of a positive
/// size are counted from the right, those of a negative size from the left.
pub open spec fn group_starts(len: int, per_group: int, i: int) -> bool {
    if per_group > 0 {
        (len - i) % per_group == 0
    } else {
        per_group < 0 && i % (-per_group) == 0
    }
}

/// The hexadecimal digits of the first `count` bytes, with the separator
/// before each group but the first.
pub open spec fn hex_of(bytes: Seq<u8>, sep: Option<char>, per_group: int, count: int) -> Seq<char>
    decreases count,
{
    if count <= 0 {
        Seq::empty()
    } else {
        let i = count - 1;
        let before = hex_of(bytes, sep, per_group, i);
        let lead = match sep {
            Some(sep) if i > 0 && group_starts(bytes.len() as int, per_group, i) => before.push(sep),
            _ => before,
        };
        lead.push(hex_digit(bytes[i] / 16)).push(hex_digit(bytes[i] % 16))
    }
}

/// The hexadecimal digit of a number below sixteen.
fn hex_char(number: u8) -> (c: char)
    requires
        number < 16,
    ensures
        c == hex_digit(number),
{
    if number < 10 {
        (48u8 + number) as char
    } else {
        (87u8 + number) as char
    }
}

/// Writes a byte string in hexadecimal digits, with a separator between
/// groups of `per_group` bytes.
pub fn bytes_to_hex(bytes: &[u8], sep: Option<char>, per_group: i64) -> (text: String)
    ensures
        text@ == hex_of(bytes@, sep, per_group as int, bytes@.len() as int),
{
    let mut text = String::new();
    let mut i: usize = 0;
    assert(text@ =~= hex_of(bytes@, sep, per_group as int, 0));
    while i < bytes.len()
        invariant
            i <= bytes@.len(),
            text@ == hex_of(bytes@, sep, per_group as int, i as int),
        decreases bytes@.len() - i,
    {
        let border: bool = if per_group > 0 {
            (bytes.len() - i) as u64 % (per_group as u64) == 0
        } else if per_group < 0 {
            i as u64 % ((-(per_group as i128)) as u64) == 0
        } else {
            false
        };
        assert(border == group_starts(bytes@.len() as int, per_group as int, i as int));
        match sep {
            Some(sep) => {
                if i > 0 && border {
                    text.push(sep);
                }
            },
            None => {},
        }
        text.push(hex_char(bytes[i] / 16));
        text.push(hex_char(bytes[i] % 16));
        i = i + 1;
    }
    text
}

/// The value of a hexadecimal digit.
pub open spec fn hex_value(c: char) -> Option<u8> {
    if '0' <= c <= '9' {
        Some((c as int - '0' as int) as u8)
    } else if 'a' <= c <= 'f' {
        Some((c as int - 'a' as int + 10) as u8)
    } else if 'A' <= c <= 'F' {
        Some((c as int - 'A' as int + 10) as u8)
    } else {
        None
    }
}

/// Reads a hexadecimal digit.
pub fn hex_char_to_value(c: char) -> (value: Option<u8>)
    ensures
        value == hex_value(c),
        value matches Some(v) ==> v < 16,
{
    let code: u32 = c as u32;
    if 48 <= code && code <= 57 {
        Some((code - 48) as u8)
    } else if 97 <= code && code <= 102 {
        Some((code - 87) as u8)
    } else if 65 <= code && code <= 70 {
        Some((code - 55) as u8)
    } else {
        None
    }
}

/// The character has the White_Space property of Unicode.
pub open spec fn unicode_space(c: char) -> bool {
    let code = c as u32;
    9 <= code <= 13 || code == 0x20 || code == 0x85 || code == 0xa0 || code == 0x1680 || 0x2000 <= code <= 0x200a
        || code == 0x2028 || code == 0x2029 || code == 0x202f || code == 0x205f || code == 0x3000
}

/// Says whether a character is white space.
pub fn is_unicode_space(c: char) -> (found: bool)
    ensures
        found == unicode_space(c),
{
    let code: u32 = c as u32;
    (9 <= code && code <= 13) || code == 0x20 || code == 0x85 || code == 0xa0 || code == 0x1680 || (0x2000 <= code
        && code <= 0x200a) || code == 0x2028 || code == 0x2029 || code == 0x202f || code == 0x205f || code == 0x3000
}

/// The error about a character that is no hexadecimal digit.
pub open spec fn not_hex_at(at: int) -> ErrorModel {
    raised(
        ExcType::ValueError,
        "non-hexadecimal number found in fromhex() arg at position "@ + decimal(at as nat),
    )
}

/// The bytes that the characters from `from` on write in pairs of hexadecimal
/// digits. White space may stand between pairs, not inside one.
pub open spec fn parsed_hex(chars: Seq<char>, from: int) -> Result<Seq<u8>, ErrorModel>
    decreases chars.len() - from,
{
    if from >= chars.len() {
        Ok(Seq::empty())
    } else if unicode_space(chars[from]) {
        parsed_hex(chars, from + 1)
    } else {
        match hex_value(chars[from]) {
            None => Err(not_hex_at(from)),
            Some(high) => if from + 1 >= chars.len() {
                Err(
                    raised(ExcType::ValueError, "fromhex() arg must contain an even number of hexadecimal digits"@),
                )
            } else {
                match hex_value(chars[from + 1]) {
                    None => Err(not_hex_at(from + 1)),
                    Some(low) => match parsed_hex(chars, from + 2) {
                        Ok(rest) => Ok(seq![(high * 16 + low) as u8] + rest),
                        Err(error) => Err(error),
                    },
                }
            },
        }
    }
}

/// Reads bytes that are written in hexadecimal digits.
pub fn bytes_from_hex(chars: &Vec<char>) -> (bytes: RunResult<Vec<u8>>)
    ensures
        match (bytes, parsed_hex(chars@, 0)) {
            (Ok(bytes), Ok(expected)) => bytes@ == expected,
            (Err(error), Err(expected)) => error@ == expected,
            _ => false,
        },
{
    let mut out: Vec<u8> = Vec::new();
    let mut i: usize = 0;
    loop
        invariant
            i <= chars@.len(),
            match (parsed_hex(chars@, 0), parsed_hex(chars@, i as int)) {
                (Ok(all), Ok(rest)) => all == out@ + rest,
                (Err(error), Err(same)) => error == same,
                _ => false,
            },
        decreases chars@.len() - i,
    {
        if i >= chars.len() {
            assert(out@ + Seq::<u8>::empty() =~= out@);
            return Ok(out);
        }
        if is_unicode_space(chars[i]) {
            i = i + 1;
        } else {
            match hex_char_to_value(chars[i]) {
                None => {
                    return Err(
                        raise2(ExcType::ValueError, "non-hexadecimal number found in fromhex() arg at position ", decimal_text(i as u64).as_str()),
                    );
                },
                Some(high) => {
                    if i + 1 >= chars.len() {
                        return Err(
                            raise(
                                ExcType::ValueError,
                                "fromhex() arg must contain an even number of hexadecimal digits",
                            ),
                        );
                    }
                    match hex_char_to_value(chars[i + 1]) {
                        None => {
                            return Err(
                                raise2(ExcType::ValueError, "non-hexadecimal number found in fromhex() arg at position ", decimal_text((i + 1) as u64).as_str()),
                            );
                        },
                        Some(low) => {
                            let ghost before = out@;
                            let byte: u8 = high * 16 + low;
                            out.push(byte);
                            i = i + 2;
                            proof {
                                match parsed_hex(chars@, i as int) {
                                    Ok(rest) => {
                                        assert(before + (seq![byte] + rest) =~= out@ + rest);
                                    },
                                    Err(_) => {},
                                }
                            }
                        },
                    }
                },
            }
        }
    }
}

/// Reading what `hex` writes without separators gives the bytes back.
pub proof fn law_hex_then_fromhex(bytes: Seq<u8>)
    ensures
        parsed_hex(hex_of(bytes, None, 0, bytes.len() as int), 0) == Ok::<Seq<u8>, ErrorModel>(bytes),
{
    lemma_hex_len(bytes, bytes.len() as int);
    lemma_parse_back(bytes, bytes.len() as int, 0);
    assert(bytes.subrange(0, bytes.len() as int) =~= bytes);
}

/// Two digits for each byte.
proof fn lemma_hex_len(bytes: Seq<u8>, count: int)
    requires
        0 <= count <= bytes.len(),
    ensures
        hex_of(bytes, None, 0, count).len() == 2 * count,
        forall|i: int| #![trigger bytes[i]]
            0 <= i < count ==> hex_of(bytes, None, 0, count)[2 * i] == hex_digit(bytes[i] / 16) && hex_of(
                bytes,
                None,
                0,
                count,
            )[2 * i + 1] == hex_digit(bytes[i] % 16),
    decreases count,
{
    if count > 0 {
        lemma_hex_len(bytes, count - 1);
        let before = hex_of(bytes, None, 0, count - 1);
        let all = hex_of(bytes, None, 0, count);
        assert(all =~= before.push(hex_digit(bytes[count - 1] / 16)).push(hex_digit(bytes[count - 1] % 16)));
        assert forall|i: int| #![trigger bytes[i]] 0 <= i < count implies all[2 * i] == hex_digit(bytes[i] / 16)
            && all[2 * i + 1] == hex_digit(bytes[i] % 16) by {
            if i < count - 1 {
                assert(all[2 * i] == before[2 * i]);
                assert(all[2 * i + 1] == before[2 * i + 1]);
            }
        }
    }
}

/// Reading the digits of the bytes from `i` on.
proof fn lemma_parse_back(bytes: Seq<u8>, count: int, i: int)
    requires
        0 <= i <= count == bytes.len(),
    ensures
        parsed_hex(hex_of(bytes, None, 0, count), 2 * i) == Ok::<Seq<u8>, ErrorModel>(bytes.subrange(i, count)),
    decreases count - i,
{
    lemma_hex_len(bytes, count);
    let chars = hex_of(bytes, None, 0, count);
    if i < count {
        lemma_parse_back(bytes, count, i + 1);
        let byte = bytes[i];
        assert(chars[2 * i] == hex_digit(byte / 16));
        assert(chars[2 * i + 1] == hex_digit(byte % 16));
        assert(hex_value(chars[2 * i]) == Some((byte / 16) as u8));
        assert(hex_value(chars[2 * i + 1]) == Some((byte % 16) as u8));
        assert(!unicode_space(chars[2 * i]));
        assert(seq![byte] + bytes.subrange(i + 1, count) =~= bytes.subrange(i, count));
    } else {
        assert(bytes.subrange(i, count) =~= Seq::<u8>::empty());
    }
}

/// The hexadecimal digit of a number below sixteen, in upper or lower case.
pub open spec fn cased_hex_digit(number: u8, upper: bool) -> char {
    if upper && number >= 10 {
        (number + 55) as char
    } else {
        hex_digit(number)
    }
}

/// Bytes from the one at `i` on in hexadecimal digits, each digit in either
/// case, with something before each pair and behind the last.
pub open spec fn spaced_hex(bytes: Seq<u8>, gaps: Seq<Seq<char>>, upper: spec_fn(int) -> bool, i: int) -> Seq<char>
    decreases bytes.len() - i,
{
    if i < 0 || i >= bytes.len() {
        gaps[i]
    } else {
        gaps[i] + seq![
            cased_hex_digit(bytes[i] / 16, upper(2 * i)),
            cased_hex_digit(bytes[i] % 16, upper(2 * i + 1)),
        ] + spaced_hex(bytes, gaps, upper, i + 1)
    }
}

/// A text is white space.
pub open spec fn blank(text: Seq<char>) -> bool {
    forall|i: int| 0 <= i < text.len() ==> unicode_space(#[trigger] text[i])
}

/// White space is passed over.
proof fn lemma_blank_is_skipped(chars: Seq<char>, from: int, to: int)
    requires
        0 <= from <= to <= chars.len(),
        forall|i: int| from <= i < to ==> unicode_space(#[trigger] chars[i]),
    ensures
        parsed_hex(chars, from) == parsed_hex(chars, to),
    decreases to - from,
{
    if from < to {
        assert(unicode_space(chars[from]));
        lemma_blank_is_skipped(chars, from + 1, to);
    }
}

/// A digit in either case is read as its number, and is no white space.
proof fn lemma_cased_digit(number: u8, upper: bool)
    requires
        number < 16,
    ensures
        hex_value(cased_hex_digit(number, upper)) == Some(number),
        !unicode_space(cased_hex_digit(number, upper)),
{
}

/// What is written behind a part of a text that was read is read back.
proof fn lemma_spaced_hex_is_read(
    before: Seq<char>,
    bytes: Seq<u8>,
    gaps: Seq<Seq<char>>,
    upper: spec_fn(int) -> bool,
    i: int,
)
    requires
        0 <= i <= bytes.len(),
        gaps.len() == bytes.len() + 1,
        forall|k: int| 0 <= k < gaps.len() ==> blank(#[trigger] gaps[k]),
    ensures
        parsed_hex(before + spaced_hex(bytes, gaps, upper, i), before.len() as int) == Ok::<Seq<u8>, ErrorModel>(
            bytes.subrange(i, bytes.len() as int),
        ),
    decreases bytes.len() - i,
{
    let chars = before + spaced_hex(bytes, gaps, upper, i);
    let start = before.len() as int;
    let there = start + gaps[i].len();
    assert(blank(gaps[i]));
    assert forall|k: int| start <= k < there implies unicode_space(#[trigger] chars[k]) by {
        assert(chars[k] == gaps[i][k - start]);
    }
    lemma_blank_is_skipped(chars, start, there);
    if i == bytes.len() {
        assert(there == chars.len());
        assert(bytes.subrange(i, bytes.len() as int) =~= Seq::<u8>::empty());
    } else {
        let high = bytes[i] / 16;
        let low = bytes[i] % 16;
        let pair = seq![cased_hex_digit(high, upper(2 * i)), cased_hex_digit(low, upper(2 * i + 1))];
        let next = before + gaps[i] + pair;
        lemma_cased_digit(high, upper(2 * i));
        lemma_cased_digit(low, upper(2 * i + 1));
        assert(chars =~= next + spaced_hex(bytes, gaps, upper, i + 1));
        assert(chars[there] == pair[0] && chars[there + 1] == pair[1]);
        lemma_spaced_hex_is_read(next, bytes, gaps, upper, i + 1);
        assert(next.len() == there + 2);
        assert((high * 16 + low) as u8 == bytes[i]);
        assert(seq![bytes[i]] + bytes.subrange(i + 1, bytes.len() as int) =~= bytes.subrange(i, bytes.len() as int));
    }
}

/// Reading hexadecimal digits gives the bytes back that they write, in either
/// case and with any white space before, between and behind the pairs.
pub proof fn law_spaced_hex_then_fromhex(bytes: Seq<u8>, gaps: Seq<Seq<char>>, upper: spec_fn(int) -> bool)
    requires
        gaps.len() == bytes.len() + 1,
        forall|k: int| 0 <= k < gaps.len() ==> blank(#[trigger] gaps[k]),
    ensures
        parsed_hex(spaced_hex(bytes, gaps, upper, 0), 0) == Ok::<Seq<u8>, ErrorModel>(bytes),
{
    lemma_spaced_hex_is_read(Seq::empty(), bytes, gaps, upper, 0);
    assert(Seq::<char>::empty() + spaced_hex(bytes, gaps, upper, 0) =~= spaced_hex(bytes, gaps, upper, 0));
    assert(bytes.subrange(0, bytes.len() as int) =~= bytes);
}

/// What `hex` writes without a separator is the digits in lower case with
/// nothing between the pairs.
pub proof fn law_hex_is_unspaced(bytes: Seq<u8>)
    ensures
        hex_of(bytes, None, 0, bytes.len() as int) == spaced_hex(
            bytes,
            Seq::new(bytes.len() + 1, |i: int| Seq::<char>::empty()),
            |i: int| false,
            0,
        ),
{
    let gaps = Seq::new(bytes.len() + 1, |i: int| Seq::<char>::empty());
    lemma_hex_is_unspaced(bytes, gaps, |i: int| false, 0);
    assert(hex_of(bytes, None, 0, 0) + spaced_hex(bytes, gaps, |i: int| false, 0) =~= spaced_hex(
        bytes,
        gaps,
        |i: int| false,
        0,
    ));
}

/// The digits of the first bytes, and behind them those of the others.
proof fn lemma_hex_is_unspaced(bytes: Seq<u8>, gaps: Seq<Seq<char>>, upper: spec_fn(int) -> bool, i: int)
    requires
        0 <= i <= bytes.len(),
        gaps.len() == bytes.len() + 1,
        forall|k: int| 0 <= k < gaps.len() ==> (#[trigger] gaps[k]).len() == 0,
        forall|k: int| !#[trigger] upper(k),
    ensures
        hex_of(bytes, None, 0, i) + spaced_hex(bytes, gaps, upper, i) == hex_of(bytes, None, 0, bytes.len() as int),
    decreases bytes.len() - i,
{
    assert(gaps[i].len() == 0);
    if i < bytes.len() {
        lemma_hex_is_unspaced(bytes, gaps, upper, i + 1);
        assert(!upper(2 * i) && !upper(2 * i + 1));
        assert(hex_of(bytes, None, 0, i) + spaced_hex(bytes, gaps, upper, i) =~= hex_of(bytes, None, 0, i + 1)
            + spaced_hex(bytes, gaps, upper, i + 1));
    } else {
        assert(hex_of(bytes, None, 0, i) + spaced_hex(bytes, gaps, upper, i) =~= hex_of(bytes, None, 0, i));
    }
}

/// The bytes hold nothing that ends a line.
pub open spec fn one_line(bytes: Seq<u8>) -> bool {
    forall|i: int| 0 <= i < bytes.len() ==> (#[trigger] bytes[i]) != 10 && bytes[i] != 13
}

/// What ends a line: a line feed, a carriage return, or both in that order.
pub open spec fn is_line_ending(ending: Seq<u8>) -> bool {
    ending == seq![10u8] || ending == seq![13u8] || ending == seq![13u8, 10u8]
}

/// What ends a kept line, where the line without it is given.
pub open spec fn line_ending(kept: Seq<u8>, line: Seq<u8>) -> Seq<u8> {
    kept.subrange(line.len() as int, kept.len() as int)
}

/// The lines at or behind `from`, with and without what ends them: there are as
/// many, none of the first is empty, each line is the kept one without its
/// ending and holds nothing else that ends a line, every kept line but the last
/// has an ending, no carriage return is parted from its line feed, and the kept
/// lines one behind the other are the bytes. Where nothing is left there are no
/// lines.
pub proof fn law_lines(bytes: Seq<u8>, from: int)
    requires
        0 <= from <= bytes.len(),
    ensures
        ({
            let kept = lines_from(bytes, from, true);
            let lines = lines_from(bytes, from, false);
            &&& kept.len() == lines.len()
            &&& kept.len() == 0 <==> from == bytes.len()
            &&& concatenated(kept) == bytes.subrange(from, bytes.len() as int)
            &&& kept.len() > 0 ==> kept[0].len() > 0 && kept[0][0] == bytes[from]
            &&& forall|i: int|
                0 <= i < kept.len() ==> {
                    &&& (#[trigger] kept[i]).len() > 0
                    &&& lines[i].len() <= kept[i].len()
                    &&& kept[i] == lines[i] + line_ending(kept[i], lines[i])
                    &&& one_line(lines[i])
                    &&& is_line_ending(line_ending(kept[i], lines[i])) || (i == kept.len() - 1 && kept[i] == lines[i])
                }
            &&& forall|i: int|
                0 <= i < kept.len() - 1 && (#[trigger] kept[i]).last() == 13 ==> kept[i + 1][0] != 10
        }),
    decreases bytes.len() - from,
{
    let kept = lines_from(bytes, from, true);
    let lines = lines_from(bytes, from, false);
    law_kept_lines_make_the_whole(bytes, from);
    if from < bytes.len() {
        lemma_line_end(bytes, from);
        lemma_one_line(bytes, from);
        let end = line_end(bytes, from);
        let next = next_line(bytes, end);
        let later = lines_from(bytes, next, true);
        let later_lines = lines_from(bytes, next, false);
        let first = bytes.subrange(from, next);
        let line = bytes.subrange(from, end);
        law_lines(bytes, next);
        assert(kept =~= seq![first] + later);
        assert(lines =~= seq![line] + later_lines);
        let ending = line_ending(first, line);
        assert(ending =~= bytes.subrange(end, next));
        assert(first =~= line + ending);
        if end < bytes.len() {
            if next == end + 2 {
                assert(ending =~= seq![13u8, 10u8]);
            } else if bytes[end] == 13 {
                assert(ending =~= seq![13u8]);
            } else {
                assert(ending =~= seq![10u8]);
            }
        } else {
            assert(first =~= line);
            assert(later.len() == 0);
        }
        assert forall|i: int| 0 <= i < kept.len() implies {
            &&& (#[trigger] kept[i]).len() > 0
            &&& lines[i].len() <= kept[i].len()
            &&& kept[i] == lines[i] + line_ending(kept[i], lines[i])
            &&& one_line(lines[i])
            &&& is_line_ending(line_ending(kept[i], lines[i])) || (i == kept.len() - 1 && kept[i] == lines[i])
        } by {
            if i > 0 {
                assert(kept[i] == later[i - 1]);
                assert(lines[i] == later_lines[i - 1]);
            }
        }
        assert forall|i: int| 0 <= i < kept.len() - 1 && (#[trigger] kept[i]).last() == 13 implies kept[i + 1][0]
            != 10 by {
            if i > 0 {
                assert(kept[i] == later[i - 1]);
                assert(kept[i + 1] == later[i]);
            } else {
                assert(kept[1] == later[0]);
                assert(first.last() == bytes[next - 1]);
            }
        }
    }
}

/// Nothing ends a line before its end.
proof fn lemma_one_line(bytes: Seq<u8>, from: int)
    requires
        0 <= from <= bytes.len(),
    ensures
        one_line(bytes.subrange(from, line_end(bytes, from))),
    decreases bytes.len() - from,
{
    lemma_line_end(bytes, from);
    let end = line_end(bytes, from);
    if from < bytes.len() && bytes[from] != 10 && bytes[from] != 13 {
        lemma_line_end(bytes, from + 1);
        lemma_one_line(bytes, from + 1);
        let line = bytes.subrange(from, end);
        let rest = bytes.subrange(from + 1, end);
        assert forall|i: int| 0 <= i < line.len() implies (#[trigger] line[i]) != 10 && line[i] != 13 by {
            if i > 0 {
                assert(line[i] == rest[i - 1]);
            }
        }
    }
}

/// Every change of case keeps the number of bytes, and all but the swap leave a
/// result that the same change leaves as it is.
pub proof fn law_case_is_settled(change: CaseChange, bytes: Seq<u8>)
    ensures
        case_changed(change, bytes).len() == bytes.len(),
        change !is Swapcase ==> case_changed(change, case_changed(change, bytes)) == case_changed(change, bytes),
{
    if change !is Swapcase {
        assert(case_changed(change, case_changed(change, bytes)) =~= case_changed(change, bytes));
    }
}

/// Swapping the case twice gives the bytes back.
pub proof fn law_case_swapped_twice(bytes: Seq<u8>)
    ensures
        case_changed(CaseChange::Swapcase, case_changed(CaseChange::Swapcase, bytes)) == bytes,
{
    assert(case_changed(CaseChange::Swapcase, case_changed(CaseChange::Swapcase, bytes)) =~= bytes);
}

} // verus!
