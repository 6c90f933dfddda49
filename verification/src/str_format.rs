//! `str.format`: templates with replacement fields.
//!
//! A template is read from left to right. What only the host can find out (an
//! attribute, an item, how a value reads as text) is asked for, one question at
//! a time, and the work is done again with one more reply.

use crate::exceptions::{
    copy_error, raise3, raised, value_error, value_error_model, ErrorModel, ExcType, RunError, RunResult,
};
use crate::heap::{VmModel, VM};
use crate::text::{chars_of, decimal, decimal_text, same_text, text_from};
use crate::value::Value;
use vstd::prelude::*;

verus! {

/// How deep a template may nest: its fields may have a specification with
/// fields, and those may not.
pub const DEPTH: u8 = 2;

/// Which way a template numbers its positional fields. The first field that
/// says which decides.
#[derive(Clone, Copy, Debug, PartialEq, Eq, Structural)]
pub enum Numbering {
    Untouched,
    /// The next field without a name takes this place.
    Automatic(usize),
    Manual,
}

/// How far the work has come.
#[derive(Clone, Copy, Debug, PartialEq, Eq, Structural)]
pub struct FormatState {
    pub numbering: Numbering,
    /// How many replies were used.
    pub used: usize,
}

/// What a subscript of a field asks for.
#[derive(Debug)]
pub enum ItemKey {
    Index(i64),
    Name(String),
}

/// What a field formats.
#[derive(Debug)]
pub enum Subject {
    Value(Value),
    /// A value that was turned into text.
    Text(String),
}

/// What the host is asked.
#[derive(Debug)]
pub enum FormatQuestion {
    Attribute(Value, String),
    Item(Value, ItemKey),
    Str(Value),
    Repr(Value),
    /// What `repr` writes, with everything beyond ASCII escaped.
    Ascii(Value),
    /// The subject formatted by a specification.
    Format(Subject, String),
}

/// What the host replies.
pub enum FormatReply {
    Value(Value),
    /// The attribute could only be read by running code.
    Suspends,
    Text(String),
    /// The specification is none, and whether the message names the type.
    BadSpec(String, bool),
    Failed(RunError),
}

/// A formatted template, or what the host is asked first.
#[derive(Debug)]
pub enum Formatted {
    Done(String),
    Ask(FormatQuestion),
}

#[verifier::ext_equal]
pub enum KeyModel {
    Index(i64),
    Name(Seq<char>),
}

#[verifier::ext_equal]
pub enum SubjectModel {
    Value(Value),
    Text(Seq<char>),
}

#[verifier::ext_equal]
pub enum QuestionModel {
    Attribute(Value, Seq<char>),
    Item(Value, KeyModel),
    Str(Value),
    Repr(Value),
    Ascii(Value),
    Format(SubjectModel, Seq<char>),
}

#[verifier::ext_equal]
pub enum ReplyModel {
    Value(Value),
    Suspends,
    Text(Seq<char>),
    BadSpec(Seq<char>, bool),
    Failed(ErrorModel),
}

impl View for ItemKey {
    type V = KeyModel;

    open spec fn view(&self) -> KeyModel {
        match *self {
            ItemKey::Index(i) => KeyModel::Index(i),
            ItemKey::Name(name) => KeyModel::Name(name@),
        }
    }
}

impl View for Subject {
    type V = SubjectModel;

    open spec fn view(&self) -> SubjectModel {
        match *self {
            Subject::Value(value) => SubjectModel::Value(value),
            Subject::Text(text) => SubjectModel::Text(text@),
        }
    }
}

impl View for FormatQuestion {
    type V = QuestionModel;

    open spec fn view(&self) -> QuestionModel {
        match *self {
            FormatQuestion::Attribute(value, name) => QuestionModel::Attribute(value, name@),
            FormatQuestion::Item(value, key) => QuestionModel::Item(value, key@),
            FormatQuestion::Str(value) => QuestionModel::Str(value),
            FormatQuestion::Repr(value) => QuestionModel::Repr(value),
            FormatQuestion::Ascii(value) => QuestionModel::Ascii(value),
            FormatQuestion::Format(subject, spec) => QuestionModel::Format(subject@, spec@),
        }
    }
}

impl View for FormatReply {
    type V = ReplyModel;

    open spec fn view(&self) -> ReplyModel {
        match *self {
            FormatReply::Value(value) => ReplyModel::Value(value),
            FormatReply::Suspends => ReplyModel::Suspends,
            FormatReply::Text(text) => ReplyModel::Text(text@),
            FormatReply::BadSpec(text, suffix) => ReplyModel::BadSpec(text@, suffix),
            FormatReply::Failed(error) => ReplyModel::Failed(error@),
        }
    }
}

/// What a template is applied to.
pub struct FormatInput<'a> {
    pub args: &'a Vec<Value>,
    pub kwargs: &'a Vec<(String, Value)>,
    pub replies: &'a Vec<FormatReply>,
    pub vm: &'a VM,
}

/// What a template is applied to, as a mathematical value.
pub struct InputModel {
    pub args: Seq<Value>,
    pub kwargs: Seq<(Seq<char>, Value)>,
    pub replies: Seq<ReplyModel>,
    pub vm: VmModel,
}

impl<'a> View for FormatInput<'a> {
    type V = InputModel;

    open spec fn view(&self) -> InputModel {
        InputModel {
            args: self.args@,
            kwargs: Seq::new(self.kwargs@.len(), |i: int| (self.kwargs@[i].0@, self.kwargs@[i].1)),
            replies: Seq::new(self.replies@.len(), |i: int| self.replies@[i]@),
            vm: self.vm@,
        }
    }
}

impl InputModel {
    /// The values name only what exists.
    pub open spec fn wf(self) -> bool {
        &&& self.vm.holds_all(self.args)
        &&& forall|i: int| 0 <= i < self.kwargs.len() ==> self.vm.holds((#[trigger] self.kwargs[i]).1)
        &&& forall|i: int|
            0 <= i < self.replies.len() ==> (#[trigger] self.replies[i] matches ReplyModel::Value(value)
                ==> self.vm.holds(value))
    }
}

/// What a part of the work gives: a result and how far it has come, a question
/// or an error.
pub enum Step<T> {
    Done(T, FormatState),
    Ask(QuestionModel),
    Failed(ErrorModel),
}

/// What a part of the work gives.
pub enum Progress<T> {
    Done(T, FormatState),
    Ask(FormatQuestion),
    Failed(RunError),
}

/// The progress is the one that the model gives.
pub open spec fn advances<T>(progress: Progress<T>, step: Step<T>) -> bool {
    match (progress, step) {
        (Progress::Done(value, state), Step::Done(expected, next)) => value == expected && state == next,
        (Progress::Ask(question), Step::Ask(expected)) => question@ == expected,
        (Progress::Failed(error), Step::Failed(expected)) => error@ == expected,
        _ => false,
    }
}

/// The progress towards a text is the one that the model gives.
pub open spec fn writes(progress: Progress<String>, step: Step<Seq<char>>) -> bool {
    match (progress, step) {
        (Progress::Done(text, state), Step::Done(expected, next)) => text@ == expected && state == next,
        (Progress::Ask(question), Step::Ask(expected)) => question@ == expected,
        (Progress::Failed(error), Step::Failed(expected)) => error@ == expected,
        _ => false,
    }
}

/// The progress towards a text that may be missing is the one that the model
/// gives.
pub open spec fn may_write(progress: Progress<Option<String>>, step: Step<Option<Seq<char>>>) -> bool {
    match (progress, step) {
        (Progress::Done(text, state), Step::Done(expected, next)) => maybe_text(text) == expected && state == next,
        (Progress::Ask(question), Step::Ask(expected)) => question@ == expected,
        (Progress::Failed(error), Step::Failed(expected)) => error@ == expected,
        _ => false,
    }
}

/// A text that may be missing.
pub open spec fn maybe_text(text: Option<String>) -> Option<Seq<char>> {
    match text {
        Some(text) => Some(text@),
        None => None,
    }
}

/// The place that an unnamed field takes, and the numbering behind it.
pub open spec fn next_automatic(numbering: Numbering) -> Result<(usize, Numbering), ErrorModel> {
    match numbering {
        Numbering::Manual => Err(
            value_error_model("cannot switch from manual field specification to automatic field numbering"@),
        ),
        Numbering::Untouched => Ok((0, Numbering::Automatic(1))),
        Numbering::Automatic(at) => Ok(
            (
                at,
                Numbering::Automatic(
                    if at < usize::MAX {
                        (at + 1) as usize
                    } else {
                        at
                    },
                ),
            ),
        ),
    }
}

/// The numbering behind a field that named its own place.
pub open spec fn numbered_by_hand(numbering: Numbering) -> Result<Numbering, ErrorModel> {
    if numbering is Automatic {
        Err(value_error_model("cannot switch from automatic field numbering to manual field specification"@))
    } else {
        Ok(Numbering::Manual)
    }
}

impl Numbering {
    /// The place that an unnamed field takes. A count that has reached the
    /// largest place stays there: no argument can stand at it.
    pub fn next(&mut self) -> (at: RunResult<usize>)
        ensures
            match (at, next_automatic(*old(self))) {
                (Ok(at), Ok((expected, next))) => at == expected && *final(self) == next,
                (Err(error), Err(expected)) => error@ == expected && *final(self) == *old(self),
                _ => false,
            },
    {
        match *self {
            Numbering::Manual => Err(
                value_error("cannot switch from manual field specification to automatic field numbering"),
            ),
            Numbering::Untouched => {
                *self = Numbering::Automatic(1);
                Ok(0)
            },
            Numbering::Automatic(at) => {
                if at < usize::MAX {
                    *self = Numbering::Automatic(at + 1);
                }
                Ok(at)
            },
        }
    }

    /// Records that a field named its own place.
    pub fn by_hand(&mut self) -> (done: RunResult<()>)
        ensures
            match (done, numbered_by_hand(*old(self))) {
                (Ok(_), Ok(next)) => *final(self) == next,
                (Err(error), Err(expected)) => error@ == expected && *final(self) == *old(self),
                _ => false,
            },
    {
        match *self {
            Numbering::Automatic(_) => Err(
                value_error("cannot switch from automatic field numbering to manual field specification"),
            ),
            _ => {
                *self = Numbering::Manual;
                Ok(())
            },
        }
    }
}

/// The character is a decimal digit.
pub open spec fn is_digit(c: char) -> bool {
    '0' <= c && c <= '9'
}

/// The text is made of digits.
pub open spec fn all_digits(text: Seq<char>) -> bool {
    forall|i: int| 0 <= i < text.len() ==> is_digit(#[trigger] text[i])
}

/// The number that digits write.
pub open spec fn digits_value(text: Seq<char>) -> nat
    decreases text.len(),
{
    if text.len() == 0 {
        0
    } else {
        (digits_value(text.drop_last()) * 10 + (text.last() as int - '0' as int)) as nat
    }
}

/// Says whether a text is made of digits.
fn only_digits(text: &Vec<char>) -> (only: bool)
    ensures
        only == all_digits(text@),
{
    let mut i: usize = 0;
    while i < text.len()
        invariant
            i <= text@.len(),
            forall|k: int| 0 <= k < i ==> is_digit(#[trigger] text@[k]),
        decreases text@.len() - i,
    {
        let c: char = text[i];
        if !('0' <= c && c <= '9') {
            assert(!is_digit(text@[i as int]));
            return false;
        }
        i = i + 1;
    }
    true
}

/// The number that digits write, unless it is too large.
fn parse_digits(text: &Vec<char>) -> (number: Option<u64>)
    requires
        all_digits(text@),
    ensures
        match number {
            Some(n) => n == digits_value(text@),
            None => digits_value(text@) > u64::MAX,
        },
{
    let mut number: Option<u64> = Some(0);
    let mut i: usize = 0;
    assert(text@.take(0) =~= Seq::<char>::empty());
    while i < text.len()
        invariant
            i <= text@.len(),
            all_digits(text@),
            match number {
                Some(n) => n == digits_value(text@.take(i as int)),
                None => digits_value(text@.take(i as int)) > u64::MAX,
            },
        decreases text@.len() - i,
    {
        assert(is_digit(text@[i as int]));
        let digit: u64 = (text[i] as u32 - '0' as u32) as u64;
        assert(text@.take(i + 1).drop_last() =~= text@.take(i as int));
        assert(text@.take(i + 1).last() == text@[i as int]);
        number = match number {
            Some(n) => {
                if n <= (u64::MAX - digit) / 10 {
                    Some(n * 10 + digit)
                } else {
                    None
                }
            },
            None => None,
        };
        i = i + 1;
    }
    assert(text@.take(i as int) =~= text@);
    number
}

/// A part of a list of characters.
fn part(chars: &Vec<char>, start: usize, end: usize) -> (copy: Vec<char>)
    requires
        start <= end <= chars@.len(),
    ensures
        copy@ == chars@.subrange(start as int, end as int),
{
    let mut copy: Vec<char> = Vec::new();
    let mut i: usize = start;
    while i < end
        invariant
            start <= i <= end <= chars@.len(),
            copy@ == chars@.subrange(start as int, i as int),
        decreases end - i,
    {
        copy.push(chars[i]);
        i = i + 1;
        assert(copy@ =~= chars@.subrange(start as int, i as int));
    }
    copy
}

/// The first place from `at` on that holds one of two characters, or the end.
pub open spec fn first_of(text: Seq<char>, a: char, b: char, at: int) -> int
    decreases text.len() - at,
{
    if at < 0 || at >= text.len() {
        text.len() as int
    } else if text[at] == a || text[at] == b {
        at
    } else {
        first_of(text, a, b, at + 1)
    }
}

/// The first place is one of the places asked for.
pub proof fn first_of_is_behind(text: Seq<char>, a: char, b: char, at: int)
    requires
        0 <= at <= text.len(),
    ensures
        at <= first_of(text, a, b, at) <= text.len(),
    decreases text.len() - at,
{
    if at < text.len() && text[at] != a && text[at] != b {
        first_of_is_behind(text, a, b, at + 1);
    }
}

/// Finds the first place from `from` on that holds one of two characters.
fn find_first_of(text: &Vec<char>, a: char, b: char, from: usize) -> (place: usize)
    requires
        from <= text@.len(),
    ensures
        place == first_of(text@, a, b, from as int),
        from <= place <= text@.len(),
{
    let mut at: usize = from;
    while at < text.len()
        invariant
            from <= at <= text@.len(),
            first_of(text@, a, b, at as int) == first_of(text@, a, b, from as int),
        decreases text@.len() - at,
    {
        if text[at] == a || text[at] == b {
            return at;
        }
        at = at + 1;
    }
    at
}

/// The closing brace that belongs to an opening one, with `depth` braces open
/// before `at`.
pub open spec fn closing(text: Seq<char>, at: int, depth: int) -> Option<int>
    decreases text.len() - at,
{
    if at < 0 || at >= text.len() {
        None
    } else if text[at] == '{' {
        closing(text, at + 1, depth + 1)
    } else if text[at] == '}' {
        if depth == 1 {
            Some(at)
        } else {
            closing(text, at + 1, depth - 1)
        }
    } else {
        closing(text, at + 1, depth)
    }
}

/// A closing brace stands where it was looked for.
pub proof fn closing_is_behind(text: Seq<char>, at: int, depth: int)
    ensures
        closing(text, at, depth) matches Some(end) ==> at <= end < text.len(),
    decreases text.len() - at,
{
    if 0 <= at && at < text.len() {
        closing_is_behind(text, at + 1, depth + 1);
        closing_is_behind(text, at + 1, depth - 1);
        closing_is_behind(text, at + 1, depth);
    }
}

/// Where the field ends that begins at `open`.
pub fn whole_field(template: &Vec<char>, open: usize) -> (end: RunResult<usize>)
    requires
        open < template@.len(),
    ensures
        match closing(template@, open + 1, 1) {
            Some(expected) => end matches Ok(end) && end == expected && open < end < template@.len(),
            None => end matches Err(error) && error@ == value_error_model("expected '}' before end of string"@),
        },
{
    let total: usize = template.len();
    let mut depth: usize = 1;
    let mut at: usize = open + 1;
    while at < total
        invariant
            open < at <= total == template@.len(),
            1 <= depth <= at,
            closing(template@, at as int, depth as int) == closing(template@, open + 1, 1),
        decreases total - at,
    {
        let c: char = template[at];
        if c == '{' {
            depth = depth + 1;
        } else if c == '}' {
            if depth == 1 {
                return Ok(at);
            }
            depth = depth - 1;
        }
        at = at + 1;
    }
    Err(value_error("expected '}' before end of string"))
}

/// A field's name, conversion and specification.
pub struct FieldModel {
    pub name: Seq<char>,
    pub conversion: Option<char>,
    pub spec: Option<Seq<char>>,
}

/// A field's name, conversion and specification.
pub struct Field {
    pub name: Vec<char>,
    pub conversion: Option<char>,
    pub spec: Option<Vec<char>>,
}

impl View for Field {
    type V = FieldModel;

    open spec fn view(&self) -> FieldModel {
        FieldModel {
            name: self.name@,
            conversion: self.conversion,
            spec: match self.spec {
                Some(spec) => Some(spec@),
                None => None,
            },
        }
    }
}

/// A field whose name ends with the `!` at `at`.
pub open spec fn converted_field(field: Seq<char>, at: int) -> Result<FieldModel, ErrorModel> {
    if at + 1 >= field.len() {
        Err(value_error_model("end of string while looking for conversion specifier"@))
    } else if at + 2 >= field.len() {
        Ok(FieldModel { name: field.take(at), conversion: Some(field[at + 1]), spec: None })
    } else if field[at + 2] == ':' {
        Ok(
            FieldModel {
                name: field.take(at),
                conversion: Some(field[at + 1]),
                spec: Some(field.subrange(at + 3, field.len() as int)),
            },
        )
    } else {
        Err(value_error_model("expected ':' after conversion specifier"@))
    }
}

/// The parts of a field, where nothing before `at` ends its name. The name
/// ends at the first `!` or `:` outside a subscript.
pub open spec fn field_from(field: Seq<char>, at: int, inside: bool) -> Result<FieldModel, ErrorModel>
    decreases field.len() - at,
{
    if at < 0 || at >= field.len() {
        Ok(FieldModel { name: field, conversion: None, spec: None })
    } else if field[at] == '[' {
        field_from(field, at + 1, true)
    } else if field[at] == ']' {
        field_from(field, at + 1, false)
    } else if field[at] == '!' && !inside {
        converted_field(field, at)
    } else if field[at] == ':' && !inside {
        Ok(
            FieldModel {
                name: field.take(at),
                conversion: None,
                spec: Some(field.subrange(at + 1, field.len() as int)),
            },
        )
    } else {
        field_from(field, at + 1, inside)
    }
}

/// Splits a field whose name ends with the `!` at `at`.
fn split_converted(field: &Vec<char>, at: usize) -> (parts: RunResult<Field>)
    requires
        at < field@.len(),
    ensures
        match (parts, converted_field(field@, at as int)) {
            (Ok(parts), Ok(expected)) => parts@ == expected,
            (Err(error), Err(expected)) => error@ == expected,
            _ => false,
        },
{
    let total: usize = field.len();
    if at + 1 >= total {
        return Err(value_error("end of string while looking for conversion specifier"));
    }
    let name = part(field, 0, at);
    assert(name@ =~= field@.take(at as int));
    if total - at == 2 {
        return Ok(Field { name, conversion: Some(field[at + 1]), spec: None });
    }
    if field[at + 2] == ':' {
        Ok(Field { name, conversion: Some(field[at + 1]), spec: Some(part(field, at + 3, total)) })
    } else {
        Err(value_error("expected ':' after conversion specifier"))
    }
}

/// Splits a field into its name, conversion and specification.
pub fn split_field(field: &Vec<char>) -> (parts: RunResult<Field>)
    ensures
        match (parts, field_from(field@, 0, false)) {
            (Ok(parts), Ok(expected)) => parts@ == expected,
            (Err(error), Err(expected)) => error@ == expected,
            _ => false,
        },
{
    let total: usize = field.len();
    let mut inside: bool = false;
    let mut at: usize = 0;
    while at < total
        invariant
            at <= total == field@.len(),
            field_from(field@, at as int, inside) == field_from(field@, 0, false),
        decreases total - at,
    {
        let c: char = field[at];
        if c == '[' {
            inside = true;
        } else if c == ']' {
            inside = false;
        } else if c == '!' && !inside {
            return split_converted(field, at);
        } else if c == ':' && !inside {
            let name = part(field, 0, at);
            assert(name@ =~= field@.take(at as int));
            return Ok(Field { name, conversion: None, spec: Some(part(field, at + 1, total)) });
        }
        at = at + 1;
    }
    let name = part(field, 0, total);
    assert(name@ =~= field@);
    Ok(Field { name, conversion: None, spec: None })
}

/// The error about a place that no argument stands at.
pub open spec fn no_argument_at(at: nat) -> ErrorModel {
    raised(
        ExcType::IndexError,
        "Replacement index "@ + decimal(at) + " out of range for positional args tuple"@,
    )
}

/// The argument at a place.
pub open spec fn argument_at(args: Seq<Value>, at: nat) -> Result<Value, ErrorModel> {
    if at < args.len() {
        Ok(args[at as int])
    } else {
        Err(no_argument_at(at))
    }
}

/// The first argument of a name, from `i` on.
pub open spec fn named_argument(kwargs: Seq<(Seq<char>, Value)>, name: Seq<char>, i: int) -> Result<Value, ErrorModel>
    decreases kwargs.len() - i,
{
    if i < 0 || i >= kwargs.len() {
        Err(raised(ExcType::KeyError, "'"@ + name + "'"@))
    } else if kwargs[i].0 == name {
        Ok(kwargs[i].1)
    } else {
        named_argument(kwargs, name, i + 1)
    }
}

/// The argument that a field's first part names.
pub open spec fn argument_model(input: InputModel, first: Seq<char>, state: FormatState) -> Step<Value> {
    if first.len() == 0 {
        match next_automatic(state.numbering) {
            Err(error) => Step::Failed(error),
            Ok((at, numbering)) => match argument_at(input.args, at as nat) {
                Ok(value) => Step::Done(value, FormatState { numbering, ..state }),
                Err(error) => Step::Failed(error),
            },
        }
    } else if all_digits(first) {
        match numbered_by_hand(state.numbering) {
            Err(error) => Step::Failed(error),
            Ok(numbering) => if digits_value(first) > usize::MAX {
                Step::Failed(value_error_model("Replacement index "@ + first + " is too large"@))
            } else {
                match argument_at(input.args, digits_value(first)) {
                    Ok(value) => Step::Done(value, FormatState { numbering, ..state }),
                    Err(error) => Step::Failed(error),
                }
            },
        }
    } else {
        match named_argument(input.kwargs, first, 0) {
            Ok(value) => Step::Done(value, state),
            Err(error) => Step::Failed(error),
        }
    }
}

/// Finds the argument at a place.
fn positional(args: &Vec<Value>, at: usize) -> (value: RunResult<Value>)
    ensures
        match (value, argument_at(args@, at as nat)) {
            (Ok(value), Ok(expected)) => value == expected,
            (Err(error), Err(expected)) => error@ == expected,
            _ => false,
        },
{
    if at < args.len() {
        Ok(args[at])
    } else {
        Err(
            raise3(
                ExcType::IndexError,
                "Replacement index ",
                decimal_text(at as u64).as_str(),
                " out of range for positional args tuple",
            ),
        )
    }
}

/// Finds the argument of a name.
fn keyword(kwargs: &Vec<(String, Value)>, name: &str) -> (value: RunResult<Value>)
    ensures
        ({
            let named = Seq::new(kwargs@.len(), |i: int| (kwargs@[i].0@, kwargs@[i].1));
            match (value, named_argument(named, name@, 0)) {
                (Ok(value), Ok(expected)) => value == expected,
                (Err(error), Err(expected)) => error@ == expected,
                _ => false,
            }
        }),
{
    let ghost named = Seq::new(kwargs@.len(), |i: int| (kwargs@[i].0@, kwargs@[i].1));
    let mut i: usize = 0;
    while i < kwargs.len()
        invariant
            i <= kwargs@.len(),
            named == Seq::new(kwargs@.len(), |i: int| (kwargs@[i].0@, kwargs@[i].1)),
            named_argument(named, name@, i as int) == named_argument(named, name@, 0),
        decreases kwargs@.len() - i,
    {
        if same_text(kwargs[i].0.as_str(), name) {
            return Ok(kwargs[i].1);
        }
        i = i + 1;
    }
    Err(raise3(ExcType::KeyError, "'", name, "'"))
}

/// A value found by name is one of the arguments.
proof fn named_argument_holds(input: InputModel, name: Seq<char>, i: int)
    requires
        input.wf(),
    ensures
        named_argument(input.kwargs, name, i) matches Ok(value) ==> input.vm.holds(value),
    decreases input.kwargs.len() - i,
{
    if 0 <= i && i < input.kwargs.len() {
        assert(input.vm.holds(input.kwargs[i].1));
        named_argument_holds(input, name, i + 1);
    }
}

/// Finds the argument that a field's first part names.
pub fn argument(input: &FormatInput<'_>, first: &Vec<char>, state: FormatState) -> (found: Progress<Value>)
    requires
        input@.wf(),
    ensures
        advances(found, argument_model(input@, first@, state)),
        found matches Progress::Done(value, _) ==> input@.vm.holds(value),
{
    let mut numbering: Numbering = state.numbering;
    if first.len() == 0 {
        return match numbering.next() {
            Err(error) => Progress::Failed(error),
            Ok(at) => match positional(input.args, at) {
                Ok(value) => Progress::Done(value, FormatState { numbering, used: state.used }),
                Err(error) => Progress::Failed(error),
            },
        };
    }
    let name = text_from(first, 0, first.len());
    assert(name@ =~= first@);
    if only_digits(first) {
        if let Err(error) = numbering.by_hand() {
            return Progress::Failed(error);
        }
        let at: usize = match parse_digits(first) {
            Some(n) if n <= usize::MAX as u64 => n as usize,
            _ => {
                return Progress::Failed(
                    raise3(ExcType::ValueError, "Replacement index ", name.as_str(), " is too large"),
                );
            },
        };
        return match positional(input.args, at) {
            Ok(value) => Progress::Done(value, FormatState { numbering, used: state.used }),
            Err(error) => Progress::Failed(error),
        };
    }
    proof {
        named_argument_holds(input@, first@, 0);
    }
    match keyword(input.kwargs, name.as_str()) {
        Ok(value) => Progress::Done(value, state),
        Err(error) => Progress::Failed(error),
    }
}

/// What a subscript asks for. Digits are an index, as long as they fit in one.
pub open spec fn item_key(key: Seq<char>) -> KeyModel {
    if key.len() > 0 && all_digits(key) && digits_value(key) <= i64::MAX {
        KeyModel::Index(digits_value(key) as i64)
    } else {
        KeyModel::Name(key)
    }
}

/// Reads a subscript.
fn read_key(key: &Vec<char>) -> (read: ItemKey)
    ensures
        read@ == item_key(key@),
{
    if key.len() > 0 && only_digits(key) {
        if let Some(n) = parse_digits(key) {
            if n <= i64::MAX as u64 {
                return ItemKey::Index(n as i64);
            }
        }
    }
    let name = text_from(key, 0, key.len());
    assert(name@ =~= key@);
    ItemKey::Name(name)
}

/// The state behind one more reply.
pub open spec fn after_reply(state: FormatState) -> FormatState {
    FormatState { used: (state.used + 1) as usize, ..state }
}

/// Follows what a field name reads from `at` on, from the value `held`.
pub open spec fn walk_model(input: InputModel, name: Seq<char>, at: int, held: Value, state: FormatState) -> Step<Value>
    decreases name.len() - at,
{
    if at < 0 || at >= name.len() {
        Step::Done(held, state)
    } else if name[at] == '.' {
        let end = first_of(name, '.', '[', at + 1);
        let attribute = name.subrange(at + 1, end);
        proof {
            first_of_is_behind(name, '.', '[', at + 1);
        }
        if end == at + 1 {
            Step::Failed(value_error_model("Empty attribute in format string"@))
        } else if state.used >= input.replies.len() {
            Step::Ask(QuestionModel::Attribute(held, attribute))
        } else {
            match input.replies[state.used as int] {
                ReplyModel::Value(value) => walk_model(input, name, end, value, after_reply(state)),
                ReplyModel::Suspends => Step::Failed(
                    raised(
                        ExcType::NotImplementedError,
                        "reading '"@ + attribute
                            + "' in a format field would have to run code, which it cannot here"@,
                    ),
                ),
                ReplyModel::Failed(error) => Step::Failed(error),
                _ => Step::Ask(QuestionModel::Attribute(held, attribute)),
            }
        }
    } else {
        let shut = first_of(name, ']', ']', at + 1);
        let key = item_key(name.subrange(at + 1, shut));
        proof {
            first_of_is_behind(name, ']', ']', at + 1);
        }
        if shut >= name.len() {
            Step::Failed(value_error_model("Missing ']' in format string"@))
        } else if state.used >= input.replies.len() {
            Step::Ask(QuestionModel::Item(held, key))
        } else {
            match input.replies[state.used as int] {
                ReplyModel::Value(value) => walk_model(input, name, shut + 1, value, after_reply(state)),
                ReplyModel::Failed(error) => Step::Failed(error),
                _ => Step::Ask(QuestionModel::Item(held, key)),
            }
        }
    }
}

/// The value that a field name stands for.
pub open spec fn resolve_model(input: InputModel, name: Seq<char>, state: FormatState) -> Step<Value> {
    let end = first_of(name, '.', '[', 0);
    match argument_model(input, name.take(end), state) {
        Step::Done(base, next) => walk_model(input, name, end, base, next),
        other => other,
    }
}

/// Finds the value that a field name stands for, with everything it reads.
pub fn resolve(input: &FormatInput<'_>, name: &Vec<char>, start: FormatState) -> (found: Progress<Value>)
    requires
        input@.wf(),
    ensures
        advances(found, resolve_model(input@, name@, start)),
        found matches Progress::Done(value, _) ==> input@.vm.holds(value),
{
    let total: usize = name.len();
    let end: usize = find_first_of(name, '.', '[', 0);
    let first = part(name, 0, end);
    assert(first@ =~= name@.take(end as int));
    let (base, next) = match argument(input, &first, start) {
        Progress::Done(base, next) => (base, next),
        Progress::Ask(question) => return Progress::Ask(question),
        Progress::Failed(error) => return Progress::Failed(error),
    };
    let mut held: Value = base;
    let mut state: FormatState = next;
    let mut at: usize = end;
    while at < total
        invariant
            at <= total == name@.len(),
            input@.wf(),
            input@.vm.holds(held),
            walk_model(input@, name@, at as int, held, state) == resolve_model(input@, name@, start),
        decreases total - at,
    {
        if name[at] == '.' {
            let end: usize = find_first_of(name, '.', '[', at + 1);
            if end == at + 1 {
                return Progress::Failed(value_error("Empty attribute in format string"));
            }
            let attribute = text_from(name, at + 1, end);
            if state.used >= input.replies.len() {
                return Progress::Ask(FormatQuestion::Attribute(held, attribute));
            }
            assert(input@.replies[state.used as int] == input.replies@[state.used as int]@);
            match &input.replies[state.used] {
                FormatReply::Value(value) => {
                    held = *value;
                },
                FormatReply::Suspends => {
                    return Progress::Failed(
                        raise3(
                            ExcType::NotImplementedError,
                            "reading '",
                            attribute.as_str(),
                            "' in a format field would have to run code, which it cannot here",
                        ),
                    );
                },
                FormatReply::Failed(error) => return Progress::Failed(copy_error(error)),
                _ => return Progress::Ask(FormatQuestion::Attribute(held, attribute)),
            }
            at = end;
        } else {
            let shut: usize = find_first_of(name, ']', ']', at + 1);
            if shut >= total {
                return Progress::Failed(value_error("Missing ']' in format string"));
            }
            let inner = part(name, at + 1, shut);
            let key = read_key(&inner);
            if state.used >= input.replies.len() {
                return Progress::Ask(FormatQuestion::Item(held, key));
            }
            assert(input@.replies[state.used as int] == input.replies@[state.used as int]@);
            match &input.replies[state.used] {
                FormatReply::Value(value) => {
                    held = *value;
                },
                FormatReply::Failed(error) => return Progress::Failed(copy_error(error)),
                _ => return Progress::Ask(FormatQuestion::Item(held, key)),
            }
            at = shut + 1;
        }
        state = FormatState { numbering: state.numbering, used: state.used + 1 };
    }
    Progress::Done(held, state)
}

/// A text that the host was asked for.
pub open spec fn asked_text(input: InputModel, question: QuestionModel, state: FormatState) -> Step<Seq<char>> {
    if state.used >= input.replies.len() {
        Step::Ask(question)
    } else {
        match input.replies[state.used as int] {
            ReplyModel::Text(text) => Step::Done(text, after_reply(state)),
            ReplyModel::Failed(error) => Step::Failed(error),
            _ => Step::Ask(question),
        }
    }
}

/// Asks the host for a text.
fn ask_text(input: &FormatInput<'_>, question: FormatQuestion, state: FormatState) -> (text: Progress<String>)
    ensures
        writes(text, asked_text(input@, question@, state)),
{
    if state.used >= input.replies.len() {
        return Progress::Ask(question);
    }
    assert(input@.replies[state.used as int] == input.replies@[state.used as int]@);
    match &input.replies[state.used] {
        FormatReply::Text(text) => Progress::Done(
            text.clone(),
            FormatState { numbering: state.numbering, used: state.used + 1 },
        ),
        FormatReply::Failed(error) => Progress::Failed(copy_error(error)),
        _ => Progress::Ask(question),
    }
}

/// The text that a conversion makes of a value.
pub open spec fn conversion_model(input: InputModel, value: Value, conversion: Option<char>, state: FormatState) -> Step<
    Option<Seq<char>>,
> {
    match conversion {
        None => Step::Done(None, state),
        Some(how) => if how == 's' {
            some_text(asked_text(input, QuestionModel::Str(value), state))
        } else if how == 'r' {
            some_text(asked_text(input, QuestionModel::Repr(value), state))
        } else if how == 'a' {
            some_text(asked_text(input, QuestionModel::Ascii(value), state))
        } else {
            Step::Failed(value_error_model("Unknown conversion specifier "@ + seq![how]))
        },
    }
}

/// A text, as one that could have been missing.
pub open spec fn some_text(step: Step<Seq<char>>) -> Step<Option<Seq<char>>> {
    match step {
        Step::Done(text, state) => Step::Done(Some(text), state),
        Step::Ask(question) => Step::Ask(question),
        Step::Failed(error) => Step::Failed(error),
    }
}

/// Converts a value into text where a field says so.
fn convert(input: &FormatInput<'_>, value: Value, conversion: Option<char>, state: FormatState) -> (text: Progress<
    Option<String>,
>)
    ensures
        may_write(text, conversion_model(input@, value, conversion, state)),
{
    let question = match conversion {
        None => return Progress::Done(None, state),
        Some(how) => {
            if how == 's' {
                FormatQuestion::Str(value)
            } else if how == 'r' {
                FormatQuestion::Repr(value)
            } else if how == 'a' {
                FormatQuestion::Ascii(value)
            } else {
                let mut message = "Unknown conversion specifier ".to_owned();
                message.push(how);
                assert(message@ =~= "Unknown conversion specifier "@ + seq![how]);
                return Progress::Failed(value_error(message.as_str()));
            }
        },
    };
    match ask_text(input, question, state) {
        Progress::Done(text, next) => Progress::Done(Some(text), next),
        Progress::Ask(question) => Progress::Ask(question),
        Progress::Failed(error) => Progress::Failed(error),
    }
}

/// The name of a subject's type.
pub open spec fn subject_type(vm: VmModel, subject: SubjectModel) -> Seq<char> {
    match subject {
        SubjectModel::Value(value) => vm.name_of_type(value),
        SubjectModel::Text(_) => "str"@,
    }
}

/// A subject formatted by its specification. Text without one is itself.
pub open spec fn formatted_model(
    input: InputModel,
    subject: SubjectModel,
    spec: Option<Seq<char>>,
    state: FormatState,
) -> Step<Seq<char>> {
    match spec {
        None => match subject {
            SubjectModel::Text(text) => Step::Done(text, state),
            SubjectModel::Value(value) => asked_text(input, QuestionModel::Str(value), state),
        },
        Some(spec) => if state.used < input.replies.len() && input.replies[state.used as int] is BadSpec {
            let message = input.replies[state.used as int]->BadSpec_0;
            if input.replies[state.used as int]->BadSpec_1 {
                Step::Failed(
                    value_error_model(
                        message + " for object of type '"@ + subject_type(input.vm, subject) + "'"@,
                    ),
                )
            } else {
                Step::Failed(value_error_model(message))
            }
        } else {
            asked_text(input, QuestionModel::Format(subject, spec), state)
        },
    }
}

/// Formats a subject by its specification.
pub fn formatted(input: &FormatInput<'_>, subject: Subject, spec: Option<String>, state: FormatState) -> (text: Progress<
    String,
>)
    requires
        input@.wf(),
        subject matches Subject::Value(value) ==> input@.vm.holds(value),
    ensures
        writes(text, formatted_model(input@, subject@, maybe_text(spec), state)),
{
    let spec = match spec {
        None => return match subject {
            Subject::Text(text) => Progress::Done(text, state),
            Subject::Value(value) => ask_text(input, FormatQuestion::Str(value), state),
        },
        Some(spec) => spec,
    };
    if state.used < input.replies.len() {
        assert(input@.replies[state.used as int] == input.replies@[state.used as int]@);
        if let FormatReply::BadSpec(message, names_type) = &input.replies[state.used] {
            if *names_type {
                let named: &str = match &subject {
                    Subject::Value(value) => input.vm.py_type_name(*value),
                    Subject::Text(_) => "str",
                };
                let mut text = message.clone();
                text.append(" for object of type '");
                text.append(named);
                text.append("'");
                return Progress::Failed(value_error(text.as_str()));
            }
            return Progress::Failed(value_error(message.as_str()));
        }
    }
    ask_text(input, FormatQuestion::Format(subject, spec), state)
}

/// The text has a field of its own.
pub open spec fn has_field(spec: Seq<char>) -> bool {
    exists|i: int| 0 <= i < spec.len() && #[trigger] spec[i] == '{'
}

/// Says whether a text has a field of its own.
fn holds_field(spec: &Vec<char>) -> (holds: bool)
    ensures
        holds == has_field(spec@),
{
    let mut i: usize = 0;
    while i < spec.len()
        invariant
            i <= spec@.len(),
            forall|k: int| 0 <= k < i ==> #[trigger] spec@[k] != '{',
        decreases spec@.len() - i,
    {
        if spec[i] == '{' {
            assert(spec@[i as int] == '{');
            return true;
        }
        i = i + 1;
    }
    false
}

/// The template from `at` on, behind what was written.
pub open spec fn render_model(
    input: InputModel,
    template: Seq<char>,
    at: int,
    out: Seq<char>,
    state: FormatState,
    depth: u8,
) -> Step<Seq<char>>
    decreases depth, 2int, template.len() - at,
{
    if at < 0 || at >= template.len() {
        Step::Done(out, state)
    } else if template[at] != '{' && template[at] != '}' {
        render_model(input, template, at + 1, out.push(template[at]), state, depth)
    } else if at + 1 < template.len() && template[at + 1] == template[at] {
        render_model(input, template, at + 2, out.push(template[at]), state, depth)
    } else if template[at] == '}' {
        Step::Failed(value_error_model("Single '}' encountered in format string"@))
    } else {
        proof {
            closing_is_behind(template, at + 1, 1);
        }
        match closing(template, at + 1, 1) {
            None => Step::Failed(value_error_model("expected '}' before end of string"@)),
            Some(end) => match filled_model(input, template.subrange(at + 1, end), state, depth) {
                Step::Done(text, next) => render_model(input, template, end + 1, out + text, next, depth),
                other => other,
            },
        }
    }
}

/// The specification of a field, with its own fields filled.
pub open spec fn spec_model(input: InputModel, spec: Option<Seq<char>>, state: FormatState, depth: u8) -> Step<
    Option<Seq<char>>,
>
    decreases depth, 0int, 0int,
{
    match spec {
        None => Step::Done(None, state),
        Some(spec) => if !has_field(spec) {
            Step::Done(Some(spec), state)
        } else if depth <= 1 {
            Step::Failed(value_error_model("Max string recursion exceeded"@))
        } else {
            some_text(render_model(input, spec, 0, Seq::empty(), state, (depth - 1) as u8))
        },
    }
}

/// One field, resolved and formatted.
pub open spec fn filled_model(input: InputModel, field: Seq<char>, state: FormatState, depth: u8) -> Step<Seq<char>>
    decreases depth, 1int, 0int,
{
    match field_from(field, 0, false) {
        Err(error) => Step::Failed(error),
        Ok(parts) => match resolve_model(input, parts.name, state) {
            Step::Ask(question) => Step::Ask(question),
            Step::Failed(error) => Step::Failed(error),
            Step::Done(value, resolved) => match conversion_model(input, value, parts.conversion, resolved) {
                Step::Ask(question) => Step::Ask(question),
                Step::Failed(error) => Step::Failed(error),
                Step::Done(said, converted) => match spec_model(input, parts.spec, converted, depth) {
                    Step::Ask(question) => Step::Ask(question),
                    Step::Failed(error) => Step::Failed(error),
                    Step::Done(spec, ready) => formatted_model(
                        input,
                        match said {
                            Some(text) => SubjectModel::Text(text),
                            None => SubjectModel::Value(value),
                        },
                        spec,
                        ready,
                    ),
                },
            },
        },
    }
}

/// Fills the fields of a specification.
fn fill_spec(input: &FormatInput<'_>, spec: &Option<Vec<char>>, state: FormatState, depth: u8) -> (text: Progress<
    Option<String>,
>)
    requires
        input@.wf(),
    ensures
        may_write(
            text,
            spec_model(
                input@,
                match *spec {
                    Some(spec) => Some(spec@),
                    None => None,
                },
                state,
                depth,
            ),
        ),
    decreases depth, 0int,
{
    let spec = match spec {
        None => return Progress::Done(None, state),
        Some(spec) => spec,
    };
    if !holds_field(spec) {
        let text = text_from(spec, 0, spec.len());
        assert(text@ =~= spec@);
        return Progress::Done(Some(text), state);
    }
    if depth <= 1 {
        return Progress::Failed(value_error("Max string recursion exceeded"));
    }
    match render(input, spec, state, depth - 1) {
        Progress::Done(text, next) => Progress::Done(Some(text), next),
        Progress::Ask(question) => Progress::Ask(question),
        Progress::Failed(error) => Progress::Failed(error),
    }
}

/// Resolves and formats one field.
pub fn filled(input: &FormatInput<'_>, field: &Vec<char>, state: FormatState, depth: u8) -> (text: Progress<String>)
    requires
        input@.wf(),
    ensures
        writes(text, filled_model(input@, field@, state, depth)),
    decreases depth, 1int,
{
    let parts = match split_field(field) {
        Ok(parts) => parts,
        Err(error) => return Progress::Failed(error),
    };
    let (value, resolved) = match resolve(input, &parts.name, state) {
        Progress::Done(value, next) => (value, next),
        Progress::Ask(question) => return Progress::Ask(question),
        Progress::Failed(error) => return Progress::Failed(error),
    };
    let (said, converted) = match convert(input, value, parts.conversion, resolved) {
        Progress::Done(said, next) => (said, next),
        Progress::Ask(question) => return Progress::Ask(question),
        Progress::Failed(error) => return Progress::Failed(error),
    };
    let (spec, ready) = match fill_spec(input, &parts.spec, converted, depth) {
        Progress::Done(spec, next) => (spec, next),
        Progress::Ask(question) => return Progress::Ask(question),
        Progress::Failed(error) => return Progress::Failed(error),
    };
    let subject = match said {
        Some(text) => Subject::Text(text),
        None => Subject::Value(value),
    };
    formatted(input, subject, spec, ready)
}

/// Fills a template. One that is a text with every brace doubled is written as
/// the text itself, and leaves the numbering as it was.
pub fn render(input: &FormatInput<'_>, template: &Vec<char>, start: FormatState, depth: u8) -> (text: Progress<String>)
    requires
        input@.wf(),
    ensures
        writes(text, render_model(input@, template@, 0, Seq::empty(), start, depth)),
        forall|plain: Seq<char>|
            template@ == #[trigger] escaped(plain, 0) ==> writes(text, Step::Done(plain, start)),
    decreases depth, 2int,
{
    let total: usize = template.len();
    let mut out = String::new();
    let mut state: FormatState = start;
    let mut at: usize = 0;
    assert(out@ =~= Seq::<char>::empty());
    proof {
        assert forall|plain: Seq<char>| template@ == #[trigger] escaped(plain, 0) implies render_model(
            input@,
            template@,
            0,
            Seq::empty(),
            start,
            depth,
        ) == Step::Done(plain, start) by {
            law_escaped_text_is_written_as_itself(input@, Seq::empty(), plain, 0, Seq::empty(), start, depth);
            assert(Seq::<char>::empty() + escaped(plain, 0) =~= escaped(plain, 0));
            assert(Seq::<char>::empty() + plain.skip(0) =~= plain);
        }
    }
    while at < total
        invariant
            at <= total == template@.len(),
            input@.wf(),
            forall|plain: Seq<char>|
                template@ == #[trigger] escaped(plain, 0) ==> render_model(
                    input@,
                    template@,
                    0,
                    Seq::empty(),
                    start,
                    depth,
                ) == Step::Done(plain, start),
            render_model(input@, template@, at as int, out@, state, depth) == render_model(
                input@,
                template@,
                0,
                Seq::empty(),
                start,
                depth,
            ),
        decreases total - at,
    {
        let c: char = template[at];
        if c != '{' && c != '}' {
            out.push(c);
            at = at + 1;
        } else if at + 1 < total && template[at + 1] == c {
            out.push(c);
            at = at + 2;
        } else if c == '}' {
            return Progress::Failed(value_error("Single '}' encountered in format string"));
        } else {
            let end: usize = match whole_field(template, at) {
                Ok(end) => end,
                Err(error) => return Progress::Failed(error),
            };
            let field = part(template, at + 1, end);
            match filled(input, &field, state, depth) {
                Progress::Done(text, next) => {
                    out.append(text.as_str());
                    state = next;
                },
                Progress::Ask(question) => return Progress::Ask(question),
                Progress::Failed(error) => return Progress::Failed(error),
            }
            at = end + 1;
        }
    }
    Progress::Done(out, state)
}

/// The work before anything was read.
pub open spec fn format_start() -> FormatState {
    FormatState { numbering: Numbering::Untouched, used: 0 }
}

/// What a template gives, with the replies so far.
pub open spec fn template_model(input: InputModel, template: Seq<char>) -> Step<Seq<char>> {
    render_model(input, template, 0, Seq::empty(), format_start(), DEPTH)
}

/// Formats a template. The result is asked for again, with one more reply,
/// until it is done.
pub fn format_template(
    template: &str,
    args: &Vec<Value>,
    kwargs: &Vec<(String, Value)>,
    vm: &VM,
    replies: &Vec<FormatReply>,
) -> (result: RunResult<Formatted>)
    requires
        (FormatInput { args, kwargs, replies, vm })@.wf(),
    ensures
        match (result, template_model((FormatInput { args, kwargs, replies, vm })@, template@)) {
            (Ok(Formatted::Done(text)), Step::Done(expected, _)) => text@ == expected,
            (Ok(Formatted::Ask(question)), Step::Ask(expected)) => question@ == expected,
            (Err(error), Step::Failed(expected)) => error@ == expected,
            _ => false,
        },
{
    let input = FormatInput { args, kwargs, replies, vm };
    let chars = chars_of(template);
    match render(&input, &chars, FormatState { numbering: Numbering::Untouched, used: 0 }, DEPTH) {
        Progress::Done(text, _) => Ok(Formatted::Done(text)),
        Progress::Ask(question) => Ok(Formatted::Ask(question)),
        Progress::Failed(error) => Err(error),
    }
}

/// A text from `i` on with every brace doubled.
pub open spec fn escaped(text: Seq<char>, i: int) -> Seq<char>
    decreases text.len() - i,
{
    if i < 0 || i >= text.len() {
        Seq::empty()
    } else if text[i] == '{' || text[i] == '}' {
        seq![text[i], text[i]] + escaped(text, i + 1)
    } else {
        seq![text[i]] + escaped(text, i + 1)
    }
}

/// What follows a part of a template that was read: a text with every brace
/// doubled is written as the text itself, wherever it stands in a template,
/// however deep the template is nested, whatever the arguments are and whatever
/// was read before. The numbering stays what it was, and nothing is asked.
pub proof fn law_escaped_text_is_written_as_itself(
    input: InputModel,
    before: Seq<char>,
    text: Seq<char>,
    i: int,
    out: Seq<char>,
    state: FormatState,
    depth: u8,
)
    requires
        0 <= i <= text.len(),
    ensures
        render_model(input, before + escaped(text, i), before.len() as int, out, state, depth) == Step::Done(
            out + text.skip(i),
            state,
        ),
    decreases text.len() - i,
{
    let template = before + escaped(text, i);
    if i == text.len() {
        assert(out + text.skip(i) =~= out);
    } else {
        let c = text[i];
        let doubled = if c == '{' || c == '}' {
            seq![c, c]
        } else {
            seq![c]
        };
        let next = before + doubled;
        assert(template =~= next + escaped(text, i + 1));
        assert(template[before.len() as int] == c);
        assert(c == '{' || c == '}' ==> template[before.len() as int + 1] == c);
        law_escaped_text_is_written_as_itself(input, next, text, i + 1, out.push(c), state, depth);
        assert(out.push(c) + text.skip(i + 1) =~= out + text.skip(i));
    }
}

/// A text with every brace doubled formats to the text itself, whatever the
/// arguments are, and nothing is asked.
pub proof fn law_escaped_text_formats_to_itself(input: InputModel, text: Seq<char>)
    ensures
        template_model(input, escaped(text, 0)) == Step::Done(text, format_start()),
{
    law_escaped_text_is_written_as_itself(input, Seq::empty(), text, 0, Seq::empty(), format_start(), DEPTH);
    assert(Seq::<char>::empty() + escaped(text, 0) =~= escaped(text, 0));
    assert(Seq::<char>::empty() + text.skip(0) =~= text);
}

/// Automatic and manual numbering cannot be mixed, whichever comes first.
pub proof fn law_numberings_do_not_mix(numbering: Numbering)
    ensures
        next_automatic(numbering) matches Ok((_, next)) ==> numbered_by_hand(next) is Err,
        numbered_by_hand(numbering) matches Ok(next) ==> next_automatic(next) is Err,
{
}

} // verus!
