//! What the methods of dictionaries mean: what they hand back, and which entries
//! are there afterwards.

use crate::args::{given, ArgsModel};
use crate::bytes::ReplyModel;
use crate::deque::known_items;
use crate::dict::{DictEntry, DictKind, DictModel, DictSpecial};
use crate::dict_call::{
    dict_effect, dict_method_called, fromkeys_kind, update_model, DictEffect, DictMadeModel, DictMethod, DictView,
    Lookup,
};
use crate::dict_iter::{next_entry, next_place, DictIter, DictIteratorState};
use crate::dict_merge::{pairs_from, PairsModel};
use crate::dict_ops::{dicts_equal, entries_equal_from, union_kind, DictEq};
use crate::equality::native_equality;
use crate::exceptions::{raised, value_error_model, ErrorModel, ExcType};
use crate::heap::VmModel;
use crate::text::decimal;
use crate::value::Value;
use vstd::prelude::*;

verus! {

/// A method gave this value.
pub open spec fn gave(effect: DictEffect, value: Value) -> bool {
    effect.1 == Ok::<DictMadeModel, ErrorModel>(DictMadeModel::Plain(value))
}

/// Where a key is looked for, and not there.
pub open spec fn absent(hash: u64) -> Option<Lookup> {
    Some(Lookup { hash, place: None })
}

/// Where a key is looked for, and there.
pub open spec fn present(hash: u64, place: usize) -> Option<Lookup> {
    Some(Lookup { hash, place: Some(place) })
}

/// `pop` of a missing key hands back the default that was given, or reports the
/// key as missing where none was. The dictionary stays as it is.
pub proof fn law_pop_of_a_missing_key(
    vm: VmModel,
    dict: DictModel,
    key: Value,
    default: Value,
    hash: u64,
    replies: Seq<ReplyModel>,
)
    ensures
        ({
            let with = dict_effect(vm, dict, DictMethod::Pop, given(seq![key, default]), absent(hash), replies);
            let without = dict_effect(vm, dict, DictMethod::Pop, given(seq![key]), absent(hash), replies);
            &&& gave(with, default)
            &&& with.0 == dict
            &&& without.1 == Ok::<DictMadeModel, ErrorModel>(DictMadeModel::MissingKey(key))
            &&& without.0 == dict
        }),
{
}

/// `pop` of a key that is there hands back its value, whatever the default, and
/// takes out its entry. The other entries keep their order.
pub proof fn law_pop_of_a_key_that_is_there(
    vm: VmModel,
    dict: DictModel,
    key: Value,
    default: Value,
    hash: u64,
    place: usize,
    replies: Seq<ReplyModel>,
)
    requires
        place < dict.entries.len(),
    ensures
        ({
            let with = dict_effect(vm, dict, DictMethod::Pop, given(seq![key, default]), present(hash, place), replies);
            let without = dict_effect(vm, dict, DictMethod::Pop, given(seq![key]), present(hash, place), replies);
            let entries = dict.entries;
            &&& gave(with, entries[place as int].value)
            &&& with == without
            &&& with.0.kind == dict.kind
            &&& with.0.entries.len() == entries.len() - 1
            &&& forall|j: int| 0 <= j < place ==> #[trigger] with.0.entries[j] == entries[j]
            &&& forall|j: int| place <= j < entries.len() - 1 ==> #[trigger] with.0.entries[j] == entries[j + 1]
        }),
{
}

/// `get` hands back the value of a key that is there, and of one that is not the
/// default that was given, or `None`. The dictionary stays as it is.
pub proof fn law_get_reads_the_value_or_the_default(
    vm: VmModel,
    dict: DictModel,
    key: Value,
    default: Value,
    hash: u64,
    place: usize,
    replies: Seq<ReplyModel>,
)
    requires
        place < dict.entries.len(),
    ensures
        ({
            let found = dict_effect(vm, dict, DictMethod::Get, given(seq![key, default]), present(hash, place), replies);
            let bare = dict_effect(vm, dict, DictMethod::Get, given(seq![key]), present(hash, place), replies);
            let missing = dict_effect(vm, dict, DictMethod::Get, given(seq![key, default]), absent(hash), replies);
            let nothing = dict_effect(vm, dict, DictMethod::Get, given(seq![key]), absent(hash), replies);
            &&& gave(found, dict.entries[place as int].value) && found.0 == dict
            &&& bare == found
            &&& gave(missing, default) && missing.0 == dict
            &&& gave(nothing, Value::NoneValue) && nothing.0 == dict
        }),
{
}

/// `setdefault` hands back the value of a key that is there and changes nothing.
/// A missing key goes in behind the others, with the default that was given or
/// `None`, and that is handed back.
pub proof fn law_setdefault_puts_in_what_is_missing(
    vm: VmModel,
    dict: DictModel,
    key: Value,
    default: Value,
    hash: u64,
    place: usize,
    replies: Seq<ReplyModel>,
)
    requires
        place < dict.entries.len(),
    ensures
        ({
            let found = dict_effect(
                vm,
                dict,
                DictMethod::Setdefault,
                given(seq![key, default]),
                present(hash, place),
                replies,
            );
            let missing = dict_effect(vm, dict, DictMethod::Setdefault, given(seq![key, default]), absent(hash), replies);
            let nothing = dict_effect(vm, dict, DictMethod::Setdefault, given(seq![key]), absent(hash), replies);
            let len = dict.entries.len() as int;
            &&& gave(found, dict.entries[place as int].value) && found.0 == dict
            &&& gave(missing, default) && missing.0.entries.len() == len + 1
            &&& missing.0.entries[len] == (DictEntry { key, value: default, hash })
            &&& forall|j: int| 0 <= j < len ==> #[trigger] missing.0.entries[j] == dict.entries[j]
            &&& missing.0.kind == dict.kind
            &&& gave(nothing, Value::NoneValue) && nothing.0.entries.len() == len + 1
            &&& nothing.0.entries[len] == (DictEntry { key, value: Value::NoneValue, hash })
        }),
{
}

/// What `setdefault` put in, `get` reads and `pop` takes out again, and then the
/// entries are those from before.
pub proof fn law_what_goes_in_comes_out(
    vm: VmModel,
    dict: DictModel,
    key: Value,
    value: Value,
    other: Value,
    hash: u64,
    replies: Seq<ReplyModel>,
)
    requires
        dict.entries.len() < usize::MAX,
    ensures
        ({
            let put = dict_effect(vm, dict, DictMethod::Setdefault, given(seq![key, value]), absent(hash), replies).0;
            let at = present(hash, dict.entries.len() as usize);
            let read = dict_effect(vm, put, DictMethod::Get, given(seq![key, other]), at, replies);
            let taken = dict_effect(vm, put, DictMethod::Pop, given(seq![key, other]), at, replies);
            let last = dict_effect(vm, put, DictMethod::Popitem, given(Seq::empty()), None, replies);
            &&& gave(read, value)
            &&& gave(taken, value) && taken.0.entries == dict.entries
            &&& last.1 == Ok::<DictMadeModel, ErrorModel>(DictMadeModel::Pair(key, value))
            &&& last.0.entries == dict.entries
        }),
{
    let entry = DictEntry { key, value, hash };
    assert(dict.entries.push(entry).remove(dict.entries.len() as int) =~= dict.entries);
}

/// `popitem` hands out the key and the value of the last entry, and leaves the
/// others. An empty dictionary has none.
pub proof fn law_popitem_hands_out_the_last_entry(vm: VmModel, dict: DictModel, replies: Seq<ReplyModel>)
    ensures
        ({
            let effect = dict_effect(vm, dict, DictMethod::Popitem, given(Seq::empty()), None, replies);
            let len = dict.entries.len() as int;
            if len == 0 {
                &&& effect.0 == dict
                &&& effect.1 == Err::<DictMadeModel, ErrorModel>(
                    raised(ExcType::KeyError, "popitem(): dictionary is empty"@),
                )
            } else {
                let entry = dict.entries[len - 1];
                &&& effect.1 == Ok::<DictMadeModel, ErrorModel>(DictMadeModel::Pair(entry.key, entry.value))
                &&& effect.0.entries.push(entry) == dict.entries
                &&& effect.0.kind == dict.kind
            }
        }),
{
    let len = dict.entries.len() as int;
    if len > 0 {
        assert(dict.entries.remove(len - 1).push(dict.entries[len - 1]) =~= dict.entries);
    }
}

/// `clear` leaves no entry. `copy` is made of the pairs in order, and of the same
/// kind, and the views are of what they are named after. None of them changes the
/// dictionary.
pub proof fn law_whole_dictionary_methods(vm: VmModel, dict: DictModel, i: int, replies: Seq<ReplyModel>)
    requires
        0 <= i < dict.entries.len(),
    ensures
        ({
            let none = given(Seq::empty());
            let cleared = dict_effect(vm, dict, DictMethod::Clear, none, None, replies);
            let copied = dict_effect(vm, dict, DictMethod::Copy, none, None, replies);
            let keys = dict_effect(vm, dict, DictMethod::View(DictView::Keys), none, None, replies);
            let values = dict_effect(vm, dict, DictMethod::View(DictView::Values), none, None, replies);
            let items = dict_effect(vm, dict, DictMethod::View(DictView::Items), none, None, replies);
            &&& gave(cleared, Value::NoneValue) && cleared.0.entries.len() == 0 && cleared.0.kind == dict.kind
            &&& copied.0 == dict
            &&& copied.1 matches Ok(DictMadeModel::FromPairs(kind, pairs, failure)) && kind == dict.kind && failure is None
                && pairs.len() == dict.entries.len() && pairs[i] == (dict.entries[i].key, dict.entries[i].value)
            &&& keys == (dict, Ok::<DictMadeModel, ErrorModel>(DictMadeModel::View(DictView::Keys)))
            &&& values == (dict, Ok::<DictMadeModel, ErrorModel>(DictMadeModel::View(DictView::Values)))
            &&& items == (dict, Ok::<DictMadeModel, ErrorModel>(DictMadeModel::View(DictView::Items)))
        }),
{
}

/// Before it knows where the key stands, a method that needs it asks for that,
/// and changes nothing.
pub proof fn law_lookups_come_first(
    vm: VmModel,
    dict: DictModel,
    key: Value,
    default: Value,
    method: DictMethod,
    replies: Seq<ReplyModel>,
)
    requires
        method is Get || method is Pop || method is Setdefault,
    ensures
        dict_effect(vm, dict, method, given(seq![key]), None, replies) == (
            dict,
            Ok::<DictMadeModel, ErrorModel>(DictMadeModel::Lookup(key)),
        ),
        dict_effect(vm, dict, method, given(seq![key, default]), None, replies) == (
            dict,
            Ok::<DictMadeModel, ErrorModel>(DictMadeModel::Lookup(key)),
        ),
{
}

/// `fromkeys` gives every item of what it walks, in order, the one value that was
/// given, or `None`. A dictionary that counts refuses it.
pub proof fn law_fromkeys_pairs_each_item_with_the_value(
    vm: VmModel,
    dict: DictModel,
    source: Value,
    items: Seq<Value>,
    value: Value,
    i: int,
    replies: Seq<ReplyModel>,
)
    requires
        known_items(vm, source) == Some(items) || known_items(vm, source) is None && vm.iterable(source) && replies.len()
            > 0 && replies[0] == ReplyModel::Items(items, None),
        0 <= i < items.len(),
    ensures
        ({
            let with = dict_effect(vm, dict, DictMethod::Fromkeys, given(seq![source, value]), None, replies);
            let bare = dict_effect(vm, dict, DictMethod::Fromkeys, given(seq![source]), None, replies);
            if dict.kind.special == Some(DictSpecial::Counter) {
                with.1 is Err && with.0 == dict
            } else {
                &&& with.0 == dict && bare.0 == dict
                &&& with.1 matches Ok(DictMadeModel::FromPairs(kind, pairs, failure)) && kind == fromkeys_kind(dict.kind)
                    && failure is None && pairs.len() == items.len() && pairs[i] == (items[i], value)
                &&& bare.1 matches Ok(DictMadeModel::FromPairs(kind, pairs, failure)) && pairs.len() == items.len()
                    && pairs[i] == (items[i], Value::NoneValue)
            }
        }),
{
}

/// What is made from keys is plain, or has a place for a factory and none in it,
/// as the dictionary that it is made by has.
pub proof fn law_fromkeys_kind(kind: DictKind, factory: Option<Value>)
    ensures
        kind.special is None || kind.special == Some(DictSpecial::Counter) ==> fromkeys_kind(kind).special is None,
        fromkeys_kind(DictKind { special: Some(DictSpecial::Default(factory)) }).special == Some(
            DictSpecial::Default(None),
        ),
{
}

/// `update` of pairs from a list of pairs puts them in in the order of the list.
/// An item that is no pair stops it there, with the pairs before it.
pub proof fn law_pairs_are_read_in_order(
    vm: VmModel,
    items: Seq<Value>,
    pairs: Seq<(Value, Value)>,
    failure: Option<ErrorModel>,
    replies: Seq<ReplyModel>,
    used: int,
    i: int,
    end: int,
    before: Seq<(Value, Value)>,
    values: Seq<Value>,
)
    requires
        0 <= i <= end <= items.len(),
        pairs.len() == items.len(),
        forall|j: int| i <= j < end ==> known_items(vm, #[trigger] items[j]) == Some(seq![pairs[j].0, pairs[j].1]),
    ensures
        end == items.len() ==> pairs_from(vm, items, failure, i, replies, used, before) == PairsModel::Pairs(
            before + pairs.subrange(i, end),
            failure,
        ),
        end < items.len() && known_items(vm, items[end]) == Some(values) && values.len() != 2 ==> pairs_from(
            vm,
            items,
            failure,
            i,
            replies,
            used,
            before,
        ) == PairsModel::Pairs(
            before + pairs.subrange(i, end),
            Some(
                value_error_model(
                    "dictionary update sequence element #"@ + decimal(end as nat) + " has length "@ + decimal(
                        values.len(),
                    ) + "; 2 is required"@,
                ),
            ),
        ),
    decreases end - i,
{
    if i < end {
        let next = before.push(pairs[i]);
        assert(known_items(vm, items[i]) == Some(seq![pairs[i].0, pairs[i].1]));
        law_pairs_are_read_in_order(vm, items, pairs, failure, replies, used, i + 1, end, next, values);
        assert(next + pairs.subrange(i + 1, end) =~= before + pairs.subrange(i, end));
    } else {
        assert(before + pairs.subrange(i, end) =~= before);
    }
}

/// `dict` of another dictionary takes its pairs in order and then the arguments
/// given by name, each under its name.
pub proof fn law_dict_of_a_dictionary(
    vm: VmModel,
    value: Value,
    source: DictModel,
    keywords: Seq<(Seq<char>, Value)>,
    replies: Seq<ReplyModel>,
    first: int,
    i: int,
    k: int,
)
    requires
        0 <= i < source.entries.len(),
        0 <= k < keywords.len(),
        0 <= first,
        first + keywords.len() <= usize::MAX,
    ensures
        ({
            let args = ArgsModel { positional: seq![value], keywords };
            let made = update_model(vm, false, args, Some(source), replies, first);
            let walk = update_model(vm, true, args, Some(source), replies, first);
            let entry = source.entries[i];
            let len = source.entries.len();
            &&& made matches Ok(DictMadeModel::Update(pairs, failure)) && failure is None && pairs.len() == len
                + keywords.len() && pairs[i] == (entry.key, entry.value) && pairs[len + k] == (
                Value::Ref((first + k) as usize),
                keywords[k].1,
            )
            &&& walk matches Ok(DictMadeModel::Walk(walk, pairs)) && walk.index == 0 && walk.expected_len == len as usize
                && pairs.len() == keywords.len() && pairs[k] == (Value::Ref((first + k) as usize), keywords[k].1)
        }),
{
}

/// A walk over a dictionary goes through its places in order and then ends. Where
/// the size changed it is an error.
pub proof fn law_walks_go_through_the_places(iter: DictIter, state: DictIteratorState, len: usize)
    ensures
        len == iter.expected_len && iter.index < len ==> next_entry(iter, len).0 == Ok::<Option<usize>, ErrorModel>(
            Some(iter.index),
        ) && next_entry(iter, len).1.index == iter.index + 1 && next_entry(iter, len).1.expected_len == len,
        len == iter.expected_len && iter.index >= len ==> next_entry(iter, len).0 == Ok::<Option<usize>, ErrorModel>(
            None,
        ),
        len != iter.expected_len ==> next_entry(iter, len).0 == Err::<Option<usize>, ErrorModel>(
            raised(ExcType::RuntimeError, "dictionary changed size during iteration"@),
        ),
        !state.exhausted && len == state.expected_len && state.index < len ==> next_place(state, len).0 == Ok::<
            Option<usize>,
            ErrorModel,
        >(Some(state.index)) && next_place(state, len).1.index == state.index + 1 && !next_place(state, len).1.exhausted,
        !state.exhausted && len == state.expected_len && state.index >= len ==> next_place(state, len).0 == Ok::<
            Option<usize>,
            ErrorModel,
        >(None) && next_place(state, len).1.exhausted,
{
}

/// Two dictionaries are equal where each key of the one stands in the other with
/// an equal value. They differ where a key is missing, and where a value is seen
/// to differ, and where one has more entries.
pub proof fn law_dictionaries_are_equal_entry_by_entry(
    vm: VmModel,
    left: DictModel,
    right: DictModel,
    places: Seq<Option<usize>>,
    answers: Seq<bool>,
    at: int,
)
    requires
        0 <= at <= left.entries.len(),
        places.len() == left.entries.len(),
        forall|j: int|
            0 <= j < at ==> (#[trigger] places[j]) is Some && native_equality(
                vm,
                left.entries[j].value,
                right.entries[places[j]->Some_0 as int].value,
            ) == Some(true),
    ensures
        left.entries.len() != right.entries.len() ==> dicts_equal(vm, left, right, None, places, answers) == Ok::<
            DictEq,
            ErrorModel,
        >(DictEq::Different),
        left.entries.len() == right.entries.len() && at == left.entries.len() ==> dicts_equal(
            vm,
            left,
            right,
            None,
            places,
            answers,
        ) == Ok::<DictEq, ErrorModel>(DictEq::Equal),
        left.entries.len() == right.entries.len() && at < left.entries.len() && (places[at] is None || native_equality(
            vm,
            left.entries[at].value,
            right.entries[places[at]->Some_0 as int].value,
        ) == Some(false)) ==> dicts_equal(vm, left, right, None, places, answers) == Ok::<DictEq, ErrorModel>(
            DictEq::Different,
        ),
{
    lemma_entries_equal(vm, left.entries, right.entries, places, answers, 0, at);
}

proof fn lemma_entries_equal(
    vm: VmModel,
    left: Seq<DictEntry>,
    right: Seq<DictEntry>,
    places: Seq<Option<usize>>,
    answers: Seq<bool>,
    i: int,
    at: int,
)
    requires
        0 <= i <= at <= left.len(),
        places.len() == left.len(),
        forall|j: int|
            0 <= j < at ==> (#[trigger] places[j]) is Some && native_equality(
                vm,
                left[j].value,
                right[places[j]->Some_0 as int].value,
            ) == Some(true),
    ensures
        entries_equal_from(vm, left, right, places, false, answers, i, 0) == entries_equal_from(
            vm,
            left,
            right,
            places,
            false,
            answers,
            at,
            0,
        ),
    decreases at - i,
{
    if i < at {
        assert(places[i] is Some);
        lemma_entries_equal(vm, left, right, places, answers, i + 1, at);
    }
}

/// A union makes a value for a missing key where the left one does, and else
/// where the right one does.
pub proof fn law_unions_keep_a_factory(left: DictKind, right: DictKind)
    ensures
        left.special matches Some(DictSpecial::Default(factory)) ==> union_kind(left, right).special == Some(
            DictSpecial::Default(factory),
        ),
        !(left.special matches Some(DictSpecial::Default(_))) ==> (right.special matches Some(
            DictSpecial::Default(factory),
        ) ==> union_kind(left, right).special == Some(DictSpecial::Default(factory))),
        !(left.special matches Some(DictSpecial::Default(_))) && !(right.special matches Some(DictSpecial::Default(_)))
            ==> union_kind(left, right).special is None,
{
}

/// Each method is called by its own name.
pub proof fn law_dictionary_methods_have_their_names()
    ensures
        dict_method_called("get"@) == Some(DictMethod::Get),
        dict_method_called("pop"@) == Some(DictMethod::Pop),
        dict_method_called("keys"@) == Some(DictMethod::View(DictView::Keys)),
        dict_method_called("copy"@) == Some(DictMethod::Copy),
        dict_method_called("items"@) == Some(DictMethod::View(DictView::Items)),
        dict_method_called("clear"@) == Some(DictMethod::Clear),
        dict_method_called("total"@) == Some(DictMethod::Total),
        dict_method_called("values"@) == Some(DictMethod::View(DictView::Values)),
        dict_method_called("update"@) == Some(DictMethod::Update),
        dict_method_called("popitem"@) == Some(DictMethod::Popitem),
        dict_method_called("elements"@) == Some(DictMethod::Elements),
        dict_method_called("subtract"@) == Some(DictMethod::Subtract),
        dict_method_called("fromkeys"@) == Some(DictMethod::Fromkeys),
        dict_method_called("setdefault"@) == Some(DictMethod::Setdefault),
        dict_method_called("most_common"@) == Some(DictMethod::MostCommon),
        dict_method_called("__missing__"@) == Some(DictMethod::Missing),
{
    reveal_strlit("get");
    reveal_strlit("pop");
    reveal_strlit("keys");
    reveal_strlit("copy");
    reveal_strlit("items");
    reveal_strlit("clear");
    reveal_strlit("total");
    reveal_strlit("values");
    reveal_strlit("update");
    reveal_strlit("popitem");
    reveal_strlit("elements");
    reveal_strlit("subtract");
    reveal_strlit("fromkeys");
    reveal_strlit("setdefault");
    reveal_strlit("most_common");
    reveal_strlit("__missing__");
    assert("get"@.len() == 3);
    assert("pop"@.len() == 3);
    assert("keys"@.len() == 4);
    assert("copy"@.len() == 4);
    assert("items"@.len() == 5);
    assert("clear"@.len() == 5);
    assert("total"@.len() == 5);
    assert("values"@.len() == 6);
    assert("update"@.len() == 6);
    assert("popitem"@.len() == 7);
    assert("elements"@.len() == 8);
    assert("subtract"@.len() == 8);
    assert("fromkeys"@.len() == 8);
    assert("setdefault"@.len() == 10);
    assert("most_common"@.len() == 11);
    assert("__missing__"@.len() == 11);
    assert("get"@[0] == 'g');
    assert("pop"@[0] == 'p');
    assert("keys"@[0] == 'k');
    assert("copy"@[0] == 'c');
    assert("items"@[0] == 'i');
    assert("clear"@[0] == 'c');
    assert("total"@[0] == 't');
    assert("values"@[0] == 'v');
    assert("update"@[0] == 'u');
    assert("popitem"@[0] == 'p');
    assert("elements"@[0] == 'e');
    assert("subtract"@[0] == 's');
    assert("fromkeys"@[0] == 'f');
    assert("setdefault"@[0] == 's');
    assert("most_common"@[0] == 'm');
    assert("__missing__"@[0] == '_');
}

} // verus!
