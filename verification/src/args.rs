//! Arguments of calls.

use crate::exceptions::{raise, raise2, raised, ErrorModel, ExcType, RunError, RunResult};
use crate::heap::{VM, VmModel};
use crate::text::{decimal, decimal_text, join3, join5, same_text};
use crate::value::Value;
use vstd::prelude::*;

verus! {

/// The arguments of a call.
pub struct ArgValues {
    pub positional: Vec<Value>,
    pub keywords: Vec<(String, Value)>,
}

/// The arguments of a call as a mathematical value.
#[verifier::ext_equal]
pub struct ArgsModel {
    pub positional: Seq<Value>,
    pub keywords: Seq<(Seq<char>, Value)>,
}

impl View for ArgValues {
    type V = ArgsModel;

    open spec fn view(&self) -> ArgsModel {
        ArgsModel {
            positional: self.positional@,
            keywords: Seq::new(self.keywords@.len(), |i: int| (self.keywords@[i].0@, self.keywords@[i].1)),
        }
    }
}

/// A call with these arguments by position and none by name.
pub open spec fn given(values: Seq<Value>) -> ArgsModel {
    ArgsModel { positional: values, keywords: Seq::empty() }
}

/// The arguments name only what exists.
pub open spec fn holds_args(vm: VmModel, args: ArgsModel) -> bool {
    &&& vm.holds_all(args.positional)
    &&& forall|i: int| 0 <= i < args.keywords.len() ==> vm.holds((#[trigger] args.keywords[i]).1)
}

/// The texts of a list.
pub open spec fn texts_of(list: Seq<&str>) -> Seq<Seq<char>> {
    Seq::new(list.len(), |i: int| list[i]@)
}

/// A message with the counts of arguments in it.
pub open spec fn count_message(a: Seq<char>, b: Seq<char>, count: nat, c: Seq<char>) -> Seq<char> {
    a + b + decimal(count) + c
}

/// The error about arguments by name where none are taken.
pub open spec fn no_keywords_error(name: Seq<char>) -> ErrorModel {
    raised(ExcType::TypeError, name + "() takes no keyword arguments"@)
}

/// The positional arguments of a call that takes no others.
pub open spec fn pos_only(name: Seq<char>, args: ArgsModel) -> Result<Seq<Value>, ErrorModel> {
    if args.keywords.len() > 0 {
        Err(no_keywords_error(name))
    } else {
        Ok(args.positional)
    }
}

/// A call that takes no arguments.
pub open spec fn zero_args(name: Seq<char>, args: ArgsModel) -> Result<(), ErrorModel> {
    if args.keywords.len() > 0 {
        Err(no_keywords_error(name))
    } else if args.positional.len() > 0 {
        Err(
            raised(
                ExcType::TypeError,
                count_message(name, "() takes no arguments ("@, args.positional.len(), " given)"@),
            ),
        )
    } else {
        Ok(())
    }
}

/// The argument of a call that takes one.
pub open spec fn one_arg(name: Seq<char>, args: ArgsModel) -> Result<Value, ErrorModel> {
    if args.keywords.len() > 0 {
        Err(no_keywords_error(name))
    } else if args.positional.len() != 1 {
        Err(
            raised(
                ExcType::TypeError,
                count_message(name, "() takes exactly one argument ("@, args.positional.len(), " given)"@),
            ),
        )
    } else {
        Ok(args.positional[0])
    }
}

/// The error about fewer arguments than wanted.
pub open spec fn at_least_error(name: Seq<char>, count: nat) -> ErrorModel {
    raised(ExcType::TypeError, count_message(name, " expected at least 1 argument, got "@, count, ""@))
}

/// The error about more arguments than wanted.
pub open spec fn at_most_error(name: Seq<char>, most: nat, count: nat) -> ErrorModel {
    raised(
        ExcType::TypeError,
        count_message(
            name + " expected at most "@ + decimal(most),
            if most == 1 {
                " argument, got "@
            } else {
                " arguments, got "@
            },
            count,
            ""@,
        ),
    )
}

/// The argument of a call that takes one or none.
pub open spec fn zero_one_arg(name: Seq<char>, args: ArgsModel) -> Result<Option<Value>, ErrorModel> {
    if args.keywords.len() > 0 {
        Err(no_keywords_error(name))
    } else if args.positional.len() > 1 {
        Err(at_most_error(name, 1, args.positional.len()))
    } else if args.positional.len() == 1 {
        Ok(Some(args.positional[0]))
    } else {
        Ok(None)
    }
}

/// The place of a name in a list of names.
pub open spec fn place_of(names: Seq<Seq<char>>, name: Seq<char>, from: int) -> Option<int>
    decreases names.len() - from,
{
    if from < 0 || from >= names.len() {
        None
    } else if names[from] == name {
        Some(from)
    } else {
        place_of(names, name, from + 1)
    }
}

/// Puts the keyword arguments from `i` on at the places of their parameters.
pub open spec fn with_keywords(
    name: Seq<char>,
    params: Seq<Seq<char>>,
    by_position: nat,
    slots: Seq<Option<Value>>,
    keywords: Seq<(Seq<char>, Value)>,
    i: int,
) -> Result<Seq<Option<Value>>, ErrorModel>
    decreases keywords.len() - i,
{
    if i < 0 || i >= keywords.len() {
        Ok(slots)
    } else {
        match place_of(params, keywords[i].0, 0) {
            None => Err(
                raised(
                    ExcType::TypeError,
                    name + "() got an unexpected keyword argument '"@ + keywords[i].0 + "'"@,
                ),
            ),
            Some(at) => if slots[at] is Some {
                Err(
                    raised(
                        ExcType::TypeError,
                        "argument for "@ + name + "() given by name ('"@ + keywords[i].0 + (if at < by_position {
                            "') and position ("@ + decimal((at + 1) as nat) + ")"@
                        } else {
                            "') twice"@
                        }),
                    ),
                )
            } else {
                with_keywords(name, params, by_position, slots.update(at, Some(keywords[i].1)), keywords, i + 1)
            },
        }
    }
}

/// The slots that the positional arguments fill.
pub open spec fn position_slots(count: nat, positional: Seq<Value>) -> Seq<Option<Value>> {
    Seq::new(
        count,
        |i: int|
            if i < positional.len() {
                Some(positional[i])
            } else {
                None
            },
    )
}

/// The first of the required parameters from `i` on that got no argument.
pub open spec fn missing_from(slots: Seq<Option<Value>>, required: int, i: int) -> Option<int>
    decreases required - i,
{
    if i >= required || i >= slots.len() || i < 0 {
        None
    } else if slots[i] is None {
        Some(i)
    } else {
        missing_from(slots, required, i + 1)
    }
}

/// The arguments of a call, each at the place of its parameter. The first
/// `required` parameters need one.
pub open spec fn bound_args(name: Seq<char>, params: Seq<Seq<char>>, required: int, args: ArgsModel) -> Result<
    Seq<Option<Value>>,
    ErrorModel,
> {
    let total = args.positional.len() + args.keywords.len();
    if total > params.len() {
        Err(
            raised(
                ExcType::TypeError,
                count_message(
                    name + "() takes at most "@ + decimal(params.len()),
                    if params.len() == 1 {
                        " argument ("@
                    } else {
                        " arguments ("@
                    },
                    total,
                    " given)"@,
                ),
            ),
        )
    } else {
        match with_keywords(
            name,
            params,
            args.positional.len(),
            position_slots(params.len(), args.positional),
            args.keywords,
            0,
        ) {
            Err(error) => Err(error),
            Ok(slots) => match missing_from(slots, required, 0) {
                None => Ok(slots),
                Some(at) => Err(
                    raised(
                        ExcType::TypeError,
                        name + "() missing required argument '"@ + params[at] + "' (pos "@ + (decimal(
                            (at + 1) as nat,
                        ) + ")"@),
                    ),
                ),
            },
        }
    }
}

/// An error whose message ends with a count and a text.
fn count_error(a: &str, b: &str, count: usize, c: &str) -> (error: RunError)
    ensures
        error@ == raised(ExcType::TypeError, count_message(a@, b@, count as nat, c@)),
{
    let mut text = a.to_owned();
    text.append(b);
    text.append(decimal_text(count as u64).as_str());
    text.append(c);
    raise(ExcType::TypeError, text.as_str())
}

/// Reports that a call got too few arguments.
pub fn type_error_at_least(name: &str, count: usize) -> (error: RunError)
    ensures
        error@ == at_least_error(name@, count as nat),
{
    count_error(name, " expected at least 1 argument, got ", count, "")
}

/// Reports that a call got too many arguments.
pub fn type_error_at_most(name: &str, most: usize, count: usize) -> (error: RunError)
    ensures
        error@ == at_most_error(name@, most as nat, count as nat),
{
    let mut lead = name.to_owned();
    lead.append(" expected at most ");
    lead.append(decimal_text(most as u64).as_str());
    if most == 1 {
        count_error(lead.as_str(), " argument, got ", count, "")
    } else {
        count_error(lead.as_str(), " arguments, got ", count, "")
    }
}

/// The result is what the model gives.
pub open spec fn same_outcome<T>(result: RunResult<T>, model: Result<T, ErrorModel>) -> bool {
    match (result, model) {
        (Ok(value), Ok(expected)) => value == expected,
        (Err(error), Err(expected)) => error@ == expected,
        _ => false,
    }
}

/// Writes one argument into a list of them.
fn with_slot(slots: &mut Vec<Option<Value>>, at: usize, value: Value)
    requires
        at < old(slots)@.len(),
    ensures
        final(slots)@ == old(slots)@.update(at as int, Some(value)),
{
    slots.set(at, Some(value));
}

impl ArgValues {
    /// Refuses arguments given by name.
    fn check_no_keywords(&self, name: &str) -> (allowed: RunResult<()>)
        ensures
            match allowed {
                Ok(_) => self@.keywords.len() == 0,
                Err(error) => self@.keywords.len() > 0 && error@ == no_keywords_error(name@),
            },
    {
        if self.keywords.len() > 0 {
            Err(raise2(ExcType::TypeError, name, "() takes no keyword arguments"))
        } else {
            Ok(())
        }
    }

    /// Refuses any argument.
    pub fn check_zero_args(&self, name: &str) -> (allowed: RunResult<()>)
        ensures
            same_outcome(allowed, zero_args(name@, self@)),
    {
        self.check_no_keywords(name)?;
        if self.positional.len() > 0 {
            return Err(count_error(name, "() takes no arguments (", self.positional.len(), " given)"));
        }
        Ok(())
    }

    /// The one argument of a call.
    pub fn get_one_arg(&self, name: &str) -> (value: RunResult<Value>)
        ensures
            same_outcome(value, one_arg(name@, self@)),
    {
        self.check_no_keywords(name)?;
        if self.positional.len() != 1 {
            return Err(count_error(name, "() takes exactly one argument (", self.positional.len(), " given)"));
        }
        Ok(self.positional[0])
    }

    /// The argument of a call that takes one or none.
    pub fn get_zero_one_arg(&self, name: &str) -> (value: RunResult<Option<Value>>)
        ensures
            same_outcome(value, zero_one_arg(name@, self@)),
    {
        self.check_no_keywords(name)?;
        if self.positional.len() > 1 {
            return Err(type_error_at_most(name, 1, self.positional.len()));
        }
        if self.positional.len() == 1 {
            Ok(Some(self.positional[0]))
        } else {
            Ok(None)
        }
    }

    /// The arguments of a call that takes them by position only.
    pub fn into_pos_only(&self, name: &str) -> (values: RunResult<&Vec<Value>>)
        ensures
            match (values, pos_only(name@, self@)) {
                (Ok(values), Ok(expected)) => values@ == expected,
                (Err(error), Err(expected)) => error@ == expected,
                _ => false,
            },
    {
        self.check_no_keywords(name)?;
        Ok(&self.positional)
    }

    /// Puts each argument at the place of its parameter.
    pub fn bind(&self, name: &str, params: &Vec<&str>, required: usize) -> (slots: RunResult<Vec<Option<Value>>>)
        requires
            required <= params@.len(),
        ensures
            match (slots, bound_args(name@, texts_of(params@), required as int, self@)) {
                (Ok(slots), Ok(expected)) => slots@ == expected && slots@.len() == params@.len(),
                (Err(error), Err(expected)) => error@ == expected,
                _ => false,
            },
    {
        let count: usize = params.len();
        if self.positional.len() > count || self.keywords.len() > count - self.positional.len() {
            return self.too_many(name, params);
        }
        let mut slots: Vec<Option<Value>> = Vec::new();
        let mut i: usize = 0;
        while i < count
            invariant
                i <= count == params@.len(),
                self.positional@.len() <= count,
                slots@.len() == i,
                forall|j: int|
                    0 <= j < i ==> #[trigger] slots@[j] == position_slots(count as nat, self@.positional)[j],
            decreases count - i,
        {
            if i < self.positional.len() {
                slots.push(Some(self.positional[i]));
            } else {
                slots.push(None);
            }
            i = i + 1;
        }
        let ghost first = position_slots(count as nat, self@.positional);
        assert(slots@ =~= first);
        let ghost names = texts_of(params@);
        let ghost goal = with_keywords(name@, names, self@.positional.len(), first, self@.keywords, 0);
        let mut k: usize = 0;
        while k < self.keywords.len()
            invariant
                k <= self.keywords@.len(),
                slots@.len() == count == params@.len(),
                names == texts_of(params@),
                goal == with_keywords(name@, names, self@.positional.len(), first, self@.keywords, 0),
                goal == with_keywords(name@, names, self@.positional.len(), slots@, self@.keywords, k as int),
                self@.positional.len() + self@.keywords.len() <= count,
                required <= count,
                first == position_slots(count as nat, self@.positional),
            decreases self.keywords@.len() - k,
        {
            let mut at: usize = 0;
            let key = self.keywords[k].0.as_str();
            assert(self@.keywords[k as int].0 == key@);
            while at < count && !same_text(params[at], key)
                invariant
                    at <= count == params@.len(),
                    place_of(texts_of(params@), key@, at as int) == place_of(texts_of(params@), key@, 0),
                decreases count - at,
            {
                at = at + 1;
            }
            if at == count {
                return Err(
                    raise2(
                        ExcType::TypeError,
                        join3(name, "() got an unexpected keyword argument '", key).as_str(),
                        "'",
                    ),
                );
            }
            assert(place_of(names, key@, 0) == Some(at as int));
            if slots[at].is_some() {
                let mut text = "argument for ".to_owned();
                text.append(name);
                text.append("() given by name ('");
                text.append(key);
                if at < self.positional.len() {
                    let mut tail = "') and position (".to_owned();
                    tail.append(decimal_text((at + 1) as u64).as_str());
                    tail.append(")");
                    text.append(tail.as_str());
                } else {
                    text.append("') twice");
                }
                return Err(raise(ExcType::TypeError, text.as_str()));
            }
            let value: Value = self.keywords[k].1;
            with_slot(&mut slots, at, value);
            k = k + 1;
        }
        let mut m: usize = 0;
        while m < required
            invariant
                m <= required <= count == params@.len(),
                slots@.len() == count,
                missing_from(slots@, required as int, m as int) == missing_from(slots@, required as int, 0),
                names == texts_of(params@),
                goal == with_keywords(name@, names, self@.positional.len(), first, self@.keywords, 0),
                goal == Ok::<Seq<Option<Value>>, ErrorModel>(slots@),
                self@.positional.len() + self@.keywords.len() <= count,
                first == position_slots(count as nat, self@.positional),
            decreases required - m,
        {
            if slots[m].is_none() {
                let mut tail = decimal_text((m + 1) as u64);
                tail.append(")");
                return Err(
                    raise(
                        ExcType::TypeError,
                        join5(name, "() missing required argument '", params[m], "' (pos ", tail.as_str()).as_str(),
                    ),
                );
            }
            m = m + 1;
        }
        Ok(slots)
    }

    /// Reports that a call got more arguments than it has parameters.
    fn too_many(&self, name: &str, params: &Vec<&str>) -> (slots: RunResult<Vec<Option<Value>>>)
        requires
            self@.positional.len() + self@.keywords.len() > params@.len(),
        ensures
            slots matches Err(error) && forall|required: int|
                bound_args(name@, texts_of(params@), required, self@) == Err::<Seq<Option<Value>>, ErrorModel>(error@),
    {
        let count: usize = params.len();
        let mut lead = name.to_owned();
        lead.append("() takes at most ");
        lead.append(decimal_text(count as u64).as_str());
        if count == 1 {
            lead.append(" argument (");
        } else {
            lead.append(" arguments (");
        }
        let total: u128 = self.positional.len() as u128 + self.keywords.len() as u128;
        let mut text = lead;
        push_decimal_wide(&mut text, total);
        text.append(" given)");
        Err(raise(ExcType::TypeError, text.as_str()))
    }
}

/// Writes the decimal digits of a number behind a text.
pub fn push_decimal_wide(text: &mut String, number: u128)
    ensures
        final(text)@ == old(text)@ + decimal(number as nat),
    decreases number,
{
    let ghost start = text@;
    if number >= 10 {
        push_decimal_wide(text, number / 10);
    }
    let digit: u8 = (number % 10) as u8;
    text.push((48u8 + digit) as char);
    assert(text@ == start + decimal(number as nat));
}

/// Where an index stands in a sequence of this length: counted from the end
/// where it is negative, and never outside.
pub open spec fn clamped(index: int, len: int) -> int {
    if index < 0 {
        if index + len < 0 {
            0
        } else {
            index + len
        }
    } else if index > len {
        len
    } else {
        index
    }
}

/// Brings an index inside a sequence.
pub fn normalize_sequence_index(index: i64, len: usize) -> (place: usize)
    ensures
        place == clamped(index as int, len as int),
        place <= len,
{
    if index < 0 {
        let back: u64 = (-(index as i128)) as u64;
        if back as u128 > len as u128 {
            0
        } else {
            len - back as usize
        }
    } else if index as u128 > len as u128 {
        len
    } else {
        index as usize
    }
}

/// The text that an argument holds, or the error about another type.
pub open spec fn text_arg(vm: VmModel, name: Seq<char>, param: Seq<char>, value: Value) -> Result<
    Seq<char>,
    ErrorModel,
> {
    match vm.text_of(value) {
        Some(text) => Ok(text),
        None => Err(
            raised(
                ExcType::TypeError,
                name + "() argument '"@ + param + "' must be str, not "@ + (if value is NoneValue {
                    "None"@
                } else {
                    vm.name_of_type(value)
                }),
            ),
        ),
    }
}

/// Reads an argument that must be a text.
pub fn str_arg<'a>(vm: &'a VM, name: &str, param: &str, value: Value) -> (text: RunResult<&'a str>)
    requires
        vm@.holds(value),
    ensures
        match (text, text_arg(vm@, name@, param@, value)) {
            (Ok(text), Ok(expected)) => text@ == expected,
            (Err(error), Err(expected)) => error@ == expected,
            _ => false,
        },
{
    match vm.get_text(value) {
        Some(text) => Ok(text),
        None => {
            let kind = match value {
                Value::NoneValue => "None",
                _ => vm.py_type_name(value),
            };
            Err(raise(ExcType::TypeError, join5(name, "() argument '", param, "' must be str, not ", kind).as_str()))
        },
    }
}

/// Arguments by position go to the parameters in order, and parameters behind
/// them get none.
pub proof fn law_positions_go_in_order(name: Seq<char>, params: Seq<Seq<char>>, required: int, values: Seq<Value>, i: int)
    requires
        0 <= required <= values.len() <= params.len(),
        0 <= i < params.len(),
    ensures
        bound_args(name, params, required, given(values)) matches Ok(slots) && slots.len() == params.len() && slots[i]
            == (if i < values.len() {
            Some(values[i])
        } else {
            None
        }),
{
    lemma_none_missing(position_slots(params.len(), values), required, 0);
}

proof fn lemma_none_missing(slots: Seq<Option<Value>>, required: int, i: int)
    requires
        0 <= i,
        forall|j: int| i <= j < required && j < slots.len() ==> (#[trigger] slots[j]) is Some,
    ensures
        missing_from(slots, required, i) is None,
    decreases required - i,
{
    if i < required && i < slots.len() {
        lemma_none_missing(slots, required, i + 1);
    }
}

/// An argument by name goes to the parameter of that name. A name that no
/// parameter has is an error, and so is one that a position has filled.
pub proof fn law_names_go_to_their_parameter(
    name: Seq<char>,
    params: Seq<Seq<char>>,
    values: Seq<Value>,
    k: int,
    keyword: Seq<char>,
    value: Value,
)
    requires
        values.len() < params.len(),
        0 <= k <= params.len(),
        forall|j: int| 0 <= j < k ==> (#[trigger] params[j]) != keyword,
    ensures
        ({
            let args = ArgsModel { positional: values, keywords: seq![(keyword, value)] };
            let bound = bound_args(name, params, 0, args);
            &&& k < params.len() && params[k] == keyword && k >= values.len() ==> (bound matches Ok(slots) && slots.len()
                == params.len() && slots[k] == Some(value) && forall|j: int|
                0 <= j < values.len() ==> #[trigger] slots[j] == Some(values[j]))
            &&& k < params.len() && params[k] == keyword && k < values.len() ==> bound is Err
            &&& k == params.len() ==> bound == Err::<Seq<Option<Value>>, ErrorModel>(
                raised(ExcType::TypeError, name + "() got an unexpected keyword argument '"@ + keyword + "'"@),
            )
        }),
{
    let keywords = seq![(keyword, value)];
    let slots = position_slots(params.len(), values);
    lemma_place_found(params, keyword, 0, k);
    assert(keywords[0] == (keyword, value));
    if k < params.len() && params[k] == keyword && k >= values.len() {
        let filled = slots.update(k, Some(value));
        assert(with_keywords(name, params, values.len(), filled, keywords, 1) == Ok::<Seq<Option<Value>>, ErrorModel>(filled));
        assert(missing_from(filled, 0, 0) is None);
    }
}

proof fn lemma_place_found(params: Seq<Seq<char>>, keyword: Seq<char>, from: int, k: int)
    requires
        0 <= from <= k <= params.len(),
        forall|j: int| from <= j < k ==> (#[trigger] params[j]) != keyword,
    ensures
        place_of(params, keyword, from) == place_of(params, keyword, k),
    decreases k - from,
{
    if from < k {
        assert(params[from] != keyword);
        lemma_place_found(params, keyword, from + 1, k);
    }
}

} // verus!
