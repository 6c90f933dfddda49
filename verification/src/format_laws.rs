//! What formatting a template means: how the parts of a template and of a field
//! make up the result.

use crate::exceptions::{raised, value_error_model, ErrorModel, ExcType};
use crate::str_format::{
    all_digits, closing, digits_value, escaped, field_from, filled_model, first_of, first_of_is_behind, format_start,
    has_field, is_digit, named_argument, render_model, resolve_model, template_model, walk_model, DEPTH, FieldModel,
    FormatState, InputModel, KeyModel, Numbering, QuestionModel, ReplyModel, Step, SubjectModel,
};
use crate::text::{decimal, digit_char};
use crate::value::Value;
use vstd::prelude::*;

verus! {

/// The text holds neither of the braces.
pub open spec fn without_braces(text: Seq<char>) -> bool {
    forall|i: int| 0 <= i < text.len() ==> (#[trigger] text[i]) != '{' && text[i] != '}'
}

/// The text holds nothing that ends the name of a field, and no subscript.
pub open spec fn without_marks(text: Seq<char>) -> bool {
    forall|i: int|
        0 <= i < text.len() ==> (#[trigger] text[i]) != '!' && text[i] != ':' && text[i] != '[' && text[i] != ']'
}

/// The text holds none of the two characters.
pub open spec fn without(text: Seq<char>, a: char, b: char) -> bool {
    forall|i: int| 0 <= i < text.len() ==> (#[trigger] text[i]) != a && text[i] != b
}

/// A reply more was used.
pub open spec fn one_more(state: FormatState) -> FormatState {
    FormatState { numbering: state.numbering, used: (state.used + 1) as usize }
}

/// The host has not replied yet to the question that comes next.
pub open spec fn unanswered(input: InputModel, state: FormatState) -> bool {
    state.used >= input.replies.len()
}

/// The host has replied so to the question that comes next.
pub open spec fn answered(input: InputModel, state: FormatState, reply: ReplyModel) -> bool {
    state.used < input.replies.len() && input.replies[state.used as int] == reply
}

/// Text with its braces doubled is written out before whatever follows it in a
/// template.
pub proof fn law_text_is_written_before_the_rest(
    input: InputModel,
    before: Seq<char>,
    text: Seq<char>,
    i: int,
    rest: Seq<char>,
    out: Seq<char>,
    state: FormatState,
    depth: u8,
)
    requires
        0 <= i <= text.len(),
    ensures
        render_model(input, before + escaped(text, i) + rest, before.len() as int, out, state, depth) == render_model(
            input,
            before + escaped(text, i) + rest,
            (before.len() + escaped(text, i).len()) as int,
            out + text.skip(i),
            state,
            depth,
        ),
    decreases text.len() - i,
{
    let template = before + escaped(text, i) + rest;
    if i == text.len() {
        assert(out + text.skip(i) =~= out);
    } else {
        let c = text[i];
        let doubled = if c == '{' || c == '}' {
            seq![c, c]
        } else {
            seq![c]
        };
        let next = before + doubled;
        assert(template =~= next + escaped(text, i + 1) + rest);
        assert(template[before.len() as int] == c);
        assert(c == '{' || c == '}' ==> template[before.len() as int + 1] == c);
        law_text_is_written_before_the_rest(input, next, text, i + 1, rest, out.push(c), state, depth);
        assert(out.push(c) + text.skip(i + 1) =~= out + text.skip(i));
    }
}

/// The brace that closes a field without braces of its own stands behind it.
proof fn lemma_closing_behind(template: Seq<char>, at: int, end: int, depth: int)
    requires
        0 <= at <= end <= template.len(),
        without_braces(template.subrange(at, end)),
    ensures
        closing(template, at, depth) == closing(template, end, depth),
    decreases end - at,
{
    if at < end {
        let part = template.subrange(at, end);
        assert(part[0] == template[at]);
        assert forall|i: int| 0 <= i < template.subrange(at + 1, end).len() implies (#[trigger] template.subrange(
            at + 1,
            end,
        )[i]) != '{' && template.subrange(at + 1, end)[i] != '}' by {
            assert(template.subrange(at + 1, end)[i] == part[i + 1]);
        }
        lemma_closing_behind(template, at + 1, end, depth);
    }
}

/// A field between braces is filled, and what it gives is written in its place.
pub proof fn law_fields_are_filled_in_place(
    input: InputModel,
    before: Seq<char>,
    field: Seq<char>,
    rest: Seq<char>,
    out: Seq<char>,
    state: FormatState,
    depth: u8,
)
    requires
        without_braces(field),
    ensures
        ({
            let template = before + seq!['{'] + field + seq!['}'] + rest;
            render_model(input, template, before.len() as int, out, state, depth) == match filled_model(
                input,
                field,
                state,
                depth,
            ) {
                Step::Done(text, next) => render_model(
                    input,
                    template,
                    (before.len() + field.len() + 2) as int,
                    out + text,
                    next,
                    depth,
                ),
                Step::Ask(question) => Step::Ask(question),
                Step::Failed(error) => Step::Failed(error),
            }
        }),
{
    let template = before + seq!['{'] + field + seq!['}'] + rest;
    let at = before.len() as int;
    let end = at + 1 + field.len();
    assert(template[at] == '{');
    assert(template[end] == '}');
    assert(template.subrange(at + 1, end) =~= field);
    assert(template[at + 1] != '{') by {
        if field.len() > 0 {
            assert(template[at + 1] == field[0]);
        }
    }
    lemma_closing_behind(template, at + 1, end, 1);
    assert(closing(template, end, 1) == Some(end));
}

/// A field whose specification holds one field of its own ends behind that.
pub proof fn law_nested_fields_are_filled_in_place(
    input: InputModel,
    before: Seq<char>,
    head: Seq<char>,
    inner: Seq<char>,
    tail: Seq<char>,
    rest: Seq<char>,
    out: Seq<char>,
    state: FormatState,
    depth: u8,
)
    requires
        head.len() > 0,
        without_braces(head),
        without_braces(inner),
        without_braces(tail),
    ensures
        ({
            let field = head + seq!['{'] + inner + seq!['}'] + tail;
            let template = before + seq!['{'] + field + seq!['}'] + rest;
            render_model(input, template, before.len() as int, out, state, depth) == match filled_model(
                input,
                field,
                state,
                depth,
            ) {
                Step::Done(text, next) => render_model(
                    input,
                    template,
                    (before.len() + field.len() + 2) as int,
                    out + text,
                    next,
                    depth,
                ),
                Step::Ask(question) => Step::Ask(question),
                Step::Failed(error) => Step::Failed(error),
            }
        }),
{
    let field = head + seq!['{'] + inner + seq!['}'] + tail;
    let template = before + seq!['{'] + field + seq!['}'] + rest;
    let at = before.len() as int;
    let open = at + 1 + head.len();
    let shut = open + 1 + inner.len();
    let end = at + 1 + field.len();
    assert(template[at] == '{');
    assert(template[at + 1] == head[0]);
    assert(template[open] == '{');
    assert(template[shut] == '}');
    assert(template[end] == '}');
    assert(template.subrange(at + 1, open) =~= head);
    assert(template.subrange(open + 1, shut) =~= inner);
    assert(template.subrange(shut + 1, end) =~= tail);
    assert(template.subrange(at + 1, end) =~= field);
    lemma_closing_behind(template, at + 1, open, 1);
    lemma_closing_behind(template, open + 1, shut, 2);
    lemma_closing_behind(template, shut + 1, end, 1);
    assert(closing(template, end, 1) == Some(end));
}

/// A template of text, one field and text is formatted to the text, what the
/// field gives and the text.
pub proof fn law_one_field_templates(input: InputModel, first: Seq<char>, field: Seq<char>, last: Seq<char>)
    requires
        without_braces(field),
    ensures
        template_model(input, escaped(first, 0) + seq!['{'] + field + seq!['}'] + escaped(last, 0)) == match filled_model(
            input,
            field,
            format_start(),
            DEPTH,
        ) {
            Step::Done(text, next) => Step::Done(first + text + last, next),
            Step::Ask(question) => Step::Ask(question),
            Step::Failed(error) => Step::Failed(error),
        },
{
    let lead = escaped(first, 0);
    let whole = lead + seq!['{'] + field + seq!['}'] + escaped(last, 0);
    let none = Seq::<char>::empty();
    let rest = seq!['{'] + field + seq!['}'] + escaped(last, 0);
    assert(none + lead + rest =~= whole);
    law_text_is_written_before_the_rest(input, none, first, 0, rest, none, format_start(), DEPTH);
    assert(none + first.skip(0) =~= first);
    law_fields_are_filled_in_place(input, lead, field, escaped(last, 0), first, format_start(), DEPTH);
    if let Step::Done(text, next) = filled_model(input, field, format_start(), DEPTH) {
        let behind = lead + seq!['{'] + field + seq!['}'];
        assert(behind + escaped(last, 0) + none =~= whole);
        law_text_is_written_before_the_rest(input, behind, last, 0, none, first + text, next, DEPTH);
        assert(first + text + last.skip(0) =~= first + text + last);
    }
}

/// A closing brace that closes nothing is an error, and so is an opening one
/// that nothing closes.
pub proof fn law_lone_braces_are_errors(
    input: InputModel,
    before: Seq<char>,
    rest: Seq<char>,
    out: Seq<char>,
    state: FormatState,
    depth: u8,
)
    requires
        without_braces(rest),
    ensures
        render_model(input, before + seq!['}'] + rest, before.len() as int, out, state, depth) == Step::<Seq<char>>::Failed(
            value_error_model("Single '}' encountered in format string"@),
        ),
        render_model(input, before + seq!['{'] + rest, before.len() as int, out, state, depth) == Step::<Seq<char>>::Failed(
            value_error_model("expected '}' before end of string"@),
        ),
{
    let at = before.len() as int;
    let one = before + seq!['}'] + rest;
    let two = before + seq!['{'] + rest;
    assert(one[at] == '}' && two[at] == '{');
    if rest.len() > 0 {
        assert(one[at + 1] == rest[0] && two[at + 1] == rest[0]);
    }
    assert(two.subrange(at + 1, two.len() as int) =~= rest);
    lemma_closing_behind(two, at + 1, two.len() as int, 1);
}

/// A name without marks is read to its end.
proof fn lemma_name_ends(field: Seq<char>, at: int, end: int)
    requires
        0 <= at <= end <= field.len(),
        without_marks(field.subrange(at, end)),
    ensures
        field_from(field, at, false) == field_from(field, end, false),
    decreases end - at,
{
    if at < end {
        let part = field.subrange(at, end);
        assert(part[0] == field[at]);
        assert forall|i: int| 0 <= i < field.subrange(at + 1, end).len() implies ({
            let c = #[trigger] field.subrange(at + 1, end)[i];
            c != '!' && c != ':' && c != '[' && c != ']'
        }) by {
            assert(field.subrange(at + 1, end)[i] == part[i + 1]);
        }
        lemma_name_ends(field, at + 1, end);
    }
}

/// A key between square brackets belongs to the name, whatever it holds.
pub proof fn law_keys_may_hold_marks(name: Seq<char>, key: Seq<char>, spec: Seq<char>)
    requires
        without_marks(name),
        without(key, ']', ']'),
    ensures
        field_from(name + seq!['['] + key + seq![']', ':'] + spec, 0, false) == Ok::<FieldModel, ErrorModel>(
            FieldModel { name: name + seq!['['] + key + seq![']'], conversion: None, spec: Some(spec) },
        ),
{
    let field = name + seq!['['] + key + seq![']', ':'] + spec;
    let open = name.len() as int;
    let shut = open + 1 + key.len();
    assert(field.subrange(0, open) =~= name);
    lemma_name_ends(field, 0, open);
    assert(field[open] == '[');
    assert(field[shut] == ']');
    assert(field[shut + 1] == ':');
    assert(field.subrange(open + 1, shut) =~= key);
    lemma_key_ends(field, open + 1, shut);
    assert(field_from(field, open, false) == field_from(field, open + 1, true));
    assert(field_from(field, shut, true) == field_from(field, shut + 1, false));
    assert(field.take(shut + 1) =~= name + seq!['['] + key + seq![']']);
    assert(field.subrange(shut + 2, field.len() as int) =~= spec);
}

proof fn lemma_key_ends(field: Seq<char>, at: int, end: int)
    requires
        0 <= at <= end <= field.len(),
        without(field.subrange(at, end), ']', ']'),
    ensures
        field_from(field, at, true) == field_from(field, end, true),
    decreases end - at,
{
    if at < end {
        let part = field.subrange(at, end);
        assert(part[0] == field[at]);
        assert forall|i: int| 0 <= i < field.subrange(at + 1, end).len() implies (#[trigger] field.subrange(
            at + 1,
            end,
        )[i]) != ']' by {
            assert(field.subrange(at + 1, end)[i] == part[i + 1]);
        }
        lemma_key_ends(field, at + 1, end);
    }
}

/// The parts of a field are the name before the first mark, the conversion
/// behind `!` and the specification behind `:`.
pub proof fn law_parts_of_a_field(name: Seq<char>, how: char, spec: Seq<char>, other: char)
    requires
        without_marks(name),
        other != ':',
    ensures
        field_from(name, 0, false) == Ok::<FieldModel, ErrorModel>(FieldModel { name, conversion: None, spec: None }),
        field_from(name + seq![':'] + spec, 0, false) == Ok::<FieldModel, ErrorModel>(
            FieldModel { name, conversion: None, spec: Some(spec) },
        ),
        field_from(name + seq!['!', how], 0, false) == Ok::<FieldModel, ErrorModel>(
            FieldModel { name, conversion: Some(how), spec: None },
        ),
        field_from(name + seq!['!', how, ':'] + spec, 0, false) == Ok::<FieldModel, ErrorModel>(
            FieldModel { name, conversion: Some(how), spec: Some(spec) },
        ),
        field_from(name + seq!['!'], 0, false) == Err::<FieldModel, ErrorModel>(
            value_error_model("end of string while looking for conversion specifier"@),
        ),
        field_from(name + seq!['!', how, other] + spec, 0, false) == Err::<FieldModel, ErrorModel>(
            value_error_model("expected ':' after conversion specifier"@),
        ),
{
    let end = name.len() as int;
    let a = name + seq![':'] + spec;
    let b = name + seq!['!', how];
    let c = name + seq!['!', how, ':'] + spec;
    let d = name + seq!['!'];
    let e = name + seq!['!', how, other] + spec;
    assert(name.subrange(0, end) =~= name);
    assert(a.subrange(0, end) =~= name);
    assert(b.subrange(0, end) =~= name);
    assert(c.subrange(0, end) =~= name);
    assert(d.subrange(0, end) =~= name);
    assert(e.subrange(0, end) =~= name);
    lemma_name_ends(name, 0, end);
    lemma_name_ends(a, 0, end);
    lemma_name_ends(b, 0, end);
    lemma_name_ends(c, 0, end);
    lemma_name_ends(d, 0, end);
    lemma_name_ends(e, 0, end);
    assert(a[end] == ':' && b[end] == '!' && c[end] == '!' && d[end] == '!' && e[end] == '!');
    assert(b[end + 1] == how && c[end + 1] == how && e[end + 1] == how);
    assert(c[end + 2] == ':' && e[end + 2] == other);
    assert(a.take(end) =~= name && b.take(end) =~= name && c.take(end) =~= name);
    assert(a.subrange(end + 1, a.len() as int) =~= spec);
    assert(c.subrange(end + 3, c.len() as int) =~= spec);
}

/// The question that a conversion asks of a value.
pub open spec fn conversion_question(how: char, value: Value) -> Option<QuestionModel> {
    if how == 's' {
        Some(QuestionModel::Str(value))
    } else if how == 'r' {
        Some(QuestionModel::Repr(value))
    } else if how == 'a' {
        Some(QuestionModel::Ascii(value))
    } else {
        None
    }
}

/// A field with the conversion `s`, `r` or `a` and no specification asks for the
/// `str`, the `repr` or the ASCII form of its value, and is written as exactly
/// what the host replies to that. Any other conversion is an error.
pub proof fn law_conversions_ask_for_their_form(
    input: InputModel,
    name: Seq<char>,
    how: char,
    state: FormatState,
    depth: u8,
    value: Value,
    resolved: FormatState,
    text: Seq<char>,
    error: ErrorModel,
)
    requires
        without_marks(name),
        resolve_model(input, name, state) == Step::Done(value, resolved),
    ensures
        ({
            let result = filled_model(input, name + seq!['!', how], state, depth);
            &&& how == 's' && unanswered(input, resolved) ==> result == Step::<Seq<char>>::Ask(QuestionModel::Str(value))
            &&& how == 'r' && unanswered(input, resolved) ==> result == Step::<Seq<char>>::Ask(
                QuestionModel::Repr(value),
            )
            &&& how == 'a' && unanswered(input, resolved) ==> result == Step::<Seq<char>>::Ask(
                QuestionModel::Ascii(value),
            )
            &&& (how == 's' || how == 'r' || how == 'a') ==> {
                &&& answered(input, resolved, ReplyModel::Text(text)) ==> result == Step::Done(text, one_more(resolved))
                &&& answered(input, resolved, ReplyModel::Failed(error)) ==> result == Step::<Seq<char>>::Failed(error)
            }
            &&& how != 's' && how != 'r' && how != 'a' ==> result == Step::<Seq<char>>::Failed(
                value_error_model("Unknown conversion specifier "@ + seq![how]),
            )
        }),
{
    law_parts_of_a_field(name, how, Seq::empty(), ' ');
}

/// A field without a conversion and without a specification asks for the `str`
/// of its value, and is written as what the host replies.
pub proof fn law_plain_fields_ask_for_text(
    input: InputModel,
    name: Seq<char>,
    state: FormatState,
    depth: u8,
    value: Value,
    resolved: FormatState,
    text: Seq<char>,
    error: ErrorModel,
)
    requires
        without_marks(name),
        resolve_model(input, name, state) == Step::Done(value, resolved),
    ensures
        ({
            let result = filled_model(input, name, state, depth);
            &&& unanswered(input, resolved) ==> result == Step::<Seq<char>>::Ask(QuestionModel::Str(value))
            &&& answered(input, resolved, ReplyModel::Text(text)) ==> result == Step::Done(text, one_more(resolved))
            &&& answered(input, resolved, ReplyModel::Failed(error)) ==> result == Step::<Seq<char>>::Failed(error)
        }),
{
    law_parts_of_a_field(name, 's', Seq::empty(), ' ');
}

/// A field with a specification asks for its value formatted by that. Behind a
/// conversion it is the converted text that is formatted.
pub proof fn law_specifications_format(
    input: InputModel,
    name: Seq<char>,
    how: char,
    spec: Seq<char>,
    state: FormatState,
    depth: u8,
    value: Value,
    resolved: FormatState,
    said: Seq<char>,
    text: Seq<char>,
)
    requires
        without_marks(name),
        without(spec, '{', '{'),
        resolve_model(input, name, state) == Step::Done(value, resolved),
        resolved.used < usize::MAX,
        how == 's' || how == 'r' || how == 'a',
    ensures
        ({
            let result = filled_model(input, name + seq![':'] + spec, state, depth);
            &&& unanswered(input, resolved) ==> result == Step::<Seq<char>>::Ask(
                QuestionModel::Format(SubjectModel::Value(value), spec),
            )
            &&& answered(input, resolved, ReplyModel::Text(text)) ==> result == Step::Done(text, one_more(resolved))
        }),
        answered(input, resolved, ReplyModel::Text(said)) ==> {
            let result = filled_model(input, name + seq!['!', how, ':'] + spec, state, depth);
            let converted = one_more(resolved);
            &&& unanswered(input, converted) ==> result == Step::<Seq<char>>::Ask(
                QuestionModel::Format(SubjectModel::Text(said), spec),
            )
            &&& answered(input, converted, ReplyModel::Text(text)) ==> result == Step::Done(text, one_more(converted))
        },
        unanswered(input, resolved) ==> Some(
            filled_model(input, name + seq!['!', how, ':'] + spec, state, depth),
        ) == match conversion_question(how, value) {
            Some(question) => Some(Step::<Seq<char>>::Ask(question)),
            None => None,
        },
{
    law_parts_of_a_field(name, how, spec, ' ');
    assert(!has_field(spec));
}

/// A specification that the host does not understand is an error that says what
/// the host says and, where it asks for that, names the type.
pub proof fn law_bad_specifications_are_errors(
    input: InputModel,
    name: Seq<char>,
    spec: Seq<char>,
    state: FormatState,
    depth: u8,
    value: Value,
    resolved: FormatState,
    said: Seq<char>,
)
    requires
        without_marks(name),
        without(spec, '{', '{'),
        resolve_model(input, name, state) == Step::Done(value, resolved),
    ensures
        ({
            let result = filled_model(input, name + seq![':'] + spec, state, depth);
            &&& answered(input, resolved, ReplyModel::BadSpec(said, false)) ==> result == Step::<Seq<char>>::Failed(
                value_error_model(said),
            )
            &&& answered(input, resolved, ReplyModel::BadSpec(said, true)) ==> result == Step::<Seq<char>>::Failed(
                value_error_model(said + " for object of type '"@ + input.vm.name_of_type(value) + "'"@),
            )
        }),
{
    law_parts_of_a_field(name, 's', spec, ' ');
    assert(!has_field(spec));
}

/// The specification of a field of a template may hold fields, which are filled
/// first, from the same arguments. The specifications of those may not.
pub proof fn law_specifications_nest_once(
    input: InputModel,
    name: Seq<char>,
    spec: Seq<char>,
    state: FormatState,
    value: Value,
    resolved: FormatState,
    filled: Seq<char>,
    ready: FormatState,
    text: Seq<char>,
    i: int,
)
    requires
        without_marks(name),
        0 <= i < spec.len(),
        spec[i] == '{',
        resolve_model(input, name, state) == Step::Done(value, resolved),
    ensures
        DEPTH == 2,
        filled_model(input, name + seq![':'] + spec, state, (DEPTH - 1) as u8) == Step::<Seq<char>>::Failed(
            value_error_model("Max string recursion exceeded"@),
        ),
        render_model(input, spec, 0, Seq::empty(), resolved, (DEPTH - 1) as u8) == Step::Done(filled, ready) ==> {
            let result = filled_model(input, name + seq![':'] + spec, state, DEPTH);
            &&& unanswered(input, ready) ==> result == Step::<Seq<char>>::Ask(
                QuestionModel::Format(SubjectModel::Value(value), filled),
            )
            &&& answered(input, ready, ReplyModel::Text(text)) ==> result == Step::Done(text, one_more(ready))
        },
{
    law_parts_of_a_field(name, 's', spec, ' ');
    assert(has_field(spec));
}

/// The digits of a number read as the number.
pub proof fn law_digits_are_read_back(n: nat)
    ensures
        decimal(n).len() > 0,
        all_digits(decimal(n)),
        digits_value(decimal(n)) == n,
    decreases n,
{
    let text = decimal(n);
    if n < 10 {
        assert(text.drop_last() =~= Seq::<char>::empty());
        assert(digits_value(text.drop_last()) == 0);
        assert(text.last() == digit_char(n as int));
    } else {
        law_digits_are_read_back(n / 10);
        assert(text.drop_last() =~= decimal(n / 10));
        assert(text.last() == digit_char((n % 10) as int));
        assert forall|i: int| 0 <= i < text.len() implies is_digit(#[trigger] text[i]) by {
            if i < text.len() - 1 {
                assert(text[i] == decimal(n / 10)[i]);
            }
        }
    }
}

/// A text that holds none of two characters has its first of them at its end.
proof fn lemma_first_of_none(text: Seq<char>, a: char, b: char, at: int, end: int)
    requires
        0 <= at <= end <= text.len(),
        without(text.subrange(at, end), a, b),
    ensures
        first_of(text, a, b, at) == first_of(text, a, b, end),
    decreases end - at,
{
    if at < end {
        let part = text.subrange(at, end);
        assert(part[0] == text[at]);
        assert forall|i: int| 0 <= i < text.subrange(at + 1, end).len() implies (#[trigger] text.subrange(
            at + 1,
            end,
        )[i]) != a && text.subrange(at + 1, end)[i] != b by {
            assert(text.subrange(at + 1, end)[i] == part[i + 1]);
        }
        lemma_first_of_none(text, a, b, at + 1, end);
    }
}

/// A name without attributes and keys is that of an argument.
proof fn lemma_bare_name(name: Seq<char>)
    requires
        without(name, '.', '['),
    ensures
        first_of(name, '.', '[', 0) == name.len(),
        name.take(name.len() as int) == name,
{
    assert(name.subrange(0, name.len() as int) =~= name);
    lemma_first_of_none(name, '.', '[', 0, name.len() as int);
    assert(name.take(name.len() as int) =~= name);
}

/// A field that is named by a number takes the argument at that place. From
/// then on the template is numbered by hand.
pub proof fn law_numbers_name_places(input: InputModel, n: nat, state: FormatState)
    requires
        n <= usize::MAX,
    ensures
        ({
            let result = resolve_model(input, decimal(n), state);
            &&& state.numbering is Automatic ==> result == Step::<Value>::Failed(
                value_error_model(
                    "cannot switch from automatic field numbering to manual field specification"@,
                ),
            )
            &&& !(state.numbering is Automatic) && n < input.args.len() ==> result == Step::Done(
                input.args[n as int],
                FormatState { numbering: Numbering::Manual, used: state.used },
            )
            &&& !(state.numbering is Automatic) && n >= input.args.len() ==> result == Step::<Value>::Failed(
                raised(
                    ExcType::IndexError,
                    "Replacement index "@ + decimal(n) + " out of range for positional args tuple"@,
                ),
            )
        }),
{
    law_digits_are_read_back(n);
    let name = decimal(n);
    assert forall|i: int| 0 <= i < name.len() implies (#[trigger] name[i]) != '.' && name[i] != '[' by {
        assert(is_digit(name[i]));
    }
    lemma_bare_name(name);
}

/// Fields without a name take the arguments in order, from the first on.
pub proof fn law_unnamed_fields_take_the_next_place(input: InputModel, at: usize, used: usize)
    requires
        at < usize::MAX,
    ensures
        input.args.len() > 0 ==> resolve_model(
            input,
            Seq::empty(),
            FormatState { numbering: Numbering::Untouched, used },
        ) == Step::Done(input.args[0], FormatState { numbering: Numbering::Automatic(1), used }),
        at < input.args.len() ==> resolve_model(
            input,
            Seq::empty(),
            FormatState { numbering: Numbering::Automatic(at), used },
        ) == Step::Done(input.args[at as int], FormatState { numbering: Numbering::Automatic((at + 1) as usize), used }),
        at >= input.args.len() ==> resolve_model(
            input,
            Seq::empty(),
            FormatState { numbering: Numbering::Automatic(at), used },
        ) == Step::<Value>::Failed(
            raised(
                ExcType::IndexError,
                "Replacement index "@ + decimal(at as nat) + " out of range for positional args tuple"@,
            ),
        ),
        resolve_model(input, Seq::empty(), FormatState { numbering: Numbering::Manual, used }) == Step::<Value>::Failed(
            value_error_model("cannot switch from manual field specification to automatic field numbering"@),
        ),
{
    lemma_bare_name(Seq::empty());
}

/// A field with a name takes the argument that was given under it first, and
/// leaves the numbering as it is. A name that nothing was given under is an
/// error.
pub proof fn law_names_name_arguments(input: InputModel, name: Seq<char>, k: int, state: FormatState)
    requires
        without(name, '.', '['),
        name.len() > 0,
        !is_digit(name[0]),
        0 <= k <= input.kwargs.len(),
        forall|i: int| 0 <= i < k ==> (#[trigger] input.kwargs[i]).0 != name,
    ensures
        k < input.kwargs.len() && input.kwargs[k].0 == name ==> resolve_model(input, name, state) == Step::Done(
            input.kwargs[k].1,
            state,
        ),
        k == input.kwargs.len() ==> resolve_model(input, name, state) == Step::<Value>::Failed(
            raised(ExcType::KeyError, "'"@ + name + "'"@),
        ),
{
    lemma_bare_name(name);
    assert(!all_digits(name)) by {
        if all_digits(name) {
            assert(is_digit(name[0]));
        }
    }
    lemma_named(input.kwargs, name, 0, k);
}

proof fn lemma_named(kwargs: Seq<(Seq<char>, Value)>, name: Seq<char>, i: int, k: int)
    requires
        0 <= i <= k <= kwargs.len(),
        forall|j: int| i <= j < k ==> (#[trigger] kwargs[j]).0 != name,
    ensures
        named_argument(kwargs, name, i) == named_argument(kwargs, name, k),
    decreases k - i,
{
    if i < k {
        assert(kwargs[i].0 != name);
        lemma_named(kwargs, name, i + 1, k);
    }
}

/// A name with more behind it is walked as the name is, up to what is behind.
proof fn lemma_walk_extended(
    input: InputModel,
    name: Seq<char>,
    more: Seq<char>,
    at: int,
    held: Value,
    state: FormatState,
    value: Value,
    resolved: FormatState,
)
    requires
        0 <= at <= name.len(),
        more.len() > 0,
        more[0] == '.' || more[0] == '[',
        walk_model(input, name, at, held, state) == Step::Done(value, resolved),
    ensures
        walk_model(input, name + more, at, held, state) == walk_model(
            input,
            name + more,
            name.len() as int,
            value,
            resolved,
        ),
    decreases name.len() - at,
{
    let whole = name + more;
    if at < name.len() {
        assert(whole[at] == name[at]);
        if name[at] == '.' {
            lemma_first_of_extended(name, more, '.', '[', at + 1);
            first_of_is_behind(name, '.', '[', at + 1);
            let end = first_of(name, '.', '[', at + 1);
            assert(whole.subrange(at + 1, end) =~= name.subrange(at + 1, end));
            if let ReplyModel::Value(next) = input.replies[state.used as int] {
                lemma_walk_extended(
                    input,
                    name,
                    more,
                    end,
                    next,
                    crate::str_format::after_reply(state),
                    value,
                    resolved,
                );
            }
        } else {
            first_of_is_behind(name, ']', ']', at + 1);
            let shut = first_of(name, ']', ']', at + 1);
            lemma_first_of_found(name, more, ']', ']', at + 1);
            assert(whole.subrange(at + 1, shut) =~= name.subrange(at + 1, shut));
            if let ReplyModel::Value(next) = input.replies[state.used as int] {
                lemma_walk_extended(
                    input,
                    name,
                    more,
                    shut + 1,
                    next,
                    crate::str_format::after_reply(state),
                    value,
                    resolved,
                );
            }
        }
    }
}

proof fn lemma_first_of_extended(name: Seq<char>, more: Seq<char>, a: char, b: char, at: int)
    requires
        0 <= at <= name.len(),
        more.len() > 0,
        more[0] == a || more[0] == b,
    ensures
        first_of(name + more, a, b, at) == first_of(name, a, b, at),
    decreases name.len() - at,
{
    let whole = name + more;
    if at < name.len() {
        assert(whole[at] == name[at]);
        lemma_first_of_extended(name, more, a, b, at + 1);
    } else {
        assert(whole[at] == more[0]);
    }
}

proof fn lemma_first_of_found(name: Seq<char>, more: Seq<char>, a: char, b: char, at: int)
    requires
        0 <= at <= name.len(),
    ensures
        first_of(name, a, b, at) < name.len() ==> first_of(name + more, a, b, at) == first_of(name, a, b, at),
    decreases name.len() - at,
{
    let whole = name + more;
    if at < name.len() {
        assert(whole[at] == name[at]);
        lemma_first_of_found(name, more, a, b, at + 1);
    }
}

/// What stands before the first attribute or key is the same in a longer name.
proof fn lemma_resolve_extended(
    input: InputModel,
    name: Seq<char>,
    more: Seq<char>,
    state: FormatState,
    value: Value,
    resolved: FormatState,
)
    requires
        more.len() > 0,
        more[0] == '.' || more[0] == '[',
        resolve_model(input, name, state) == Step::Done(value, resolved),
    ensures
        resolve_model(input, name + more, state) == walk_model(
            input,
            name + more,
            name.len() as int,
            value,
            resolved,
        ),
{
    lemma_first_of_extended(name, more, '.', '[', 0);
    first_of_is_behind(name, '.', '[', 0);
    let end = first_of(name, '.', '[', 0);
    assert((name + more).take(end) =~= name.take(end));
    match crate::str_format::argument_model(input, name.take(end), state) {
        Step::Done(base, next) => {
            lemma_walk_extended(input, name, more, end, base, next, value, resolved);
        },
        _ => {},
    }
}

/// A name with an attribute behind it reads the attribute of what the name
/// stands for.
pub proof fn law_attributes_are_read_of_the_value(
    input: InputModel,
    name: Seq<char>,
    attribute: Seq<char>,
    state: FormatState,
    value: Value,
    resolved: FormatState,
    read: Value,
    error: ErrorModel,
)
    requires
        without(attribute, '.', '['),
        resolve_model(input, name, state) == Step::Done(value, resolved),
    ensures
        ({
            let result = resolve_model(input, name + seq!['.'] + attribute, state);
            if attribute.len() == 0 {
                result == Step::<Value>::Failed(value_error_model("Empty attribute in format string"@))
            } else {
                &&& unanswered(input, resolved) ==> result == Step::<Value>::Ask(
                    QuestionModel::Attribute(value, attribute),
                )
                &&& answered(input, resolved, ReplyModel::Value(read)) ==> result == Step::Done(read, one_more(resolved))
                &&& answered(input, resolved, ReplyModel::Failed(error)) ==> result == Step::<Value>::Failed(error)
                &&& answered(input, resolved, ReplyModel::Suspends) ==> result == Step::<Value>::Failed(
                    raised(
                        ExcType::NotImplementedError,
                        "reading '"@ + attribute
                            + "' in a format field would have to run code, which it cannot here"@,
                    ),
                )
            }
        }),
{
    let more = seq!['.'] + attribute;
    let whole = name + more;
    let at = name.len() as int;
    assert(name + seq!['.'] + attribute =~= whole);
    lemma_resolve_extended(input, name, more, state, value, resolved);
    assert(whole[at] == '.');
    assert(whole.subrange(at + 1, whole.len() as int) =~= attribute);
    lemma_first_of_none(whole, '.', '[', at + 1, whole.len() as int);
    let end = whole.len() as int;
    assert(first_of(whole, '.', '[', at + 1) == end);
    assert(walk_model(input, whole, end, read, one_more(resolved)) == Step::Done(read, one_more(resolved)));
}

/// A name with a key behind it reads the item of what the name stands for: by
/// its number where the key is one, and else by the text that the key is.
pub proof fn law_keys_read_items_of_the_value(
    input: InputModel,
    name: Seq<char>,
    key: Seq<char>,
    n: nat,
    state: FormatState,
    value: Value,
    resolved: FormatState,
    read: Value,
    error: ErrorModel,
)
    requires
        without(key, ']', ']'),
        n <= i64::MAX,
        resolve_model(input, name, state) == Step::Done(value, resolved),
    ensures
        ({
            let result = resolve_model(input, name + seq!['['] + key + seq![']'], state);
            &&& unanswered(input, resolved) && key == decimal(n) ==> result == Step::<Value>::Ask(
                QuestionModel::Item(value, KeyModel::Index(n as i64)),
            )
            &&& unanswered(input, resolved) && (key.len() == 0 || !is_digit(key[0])) ==> result == Step::<Value>::Ask(
                QuestionModel::Item(value, KeyModel::Name(key)),
            )
            &&& answered(input, resolved, ReplyModel::Value(read)) ==> result == Step::Done(read, one_more(resolved))
            &&& answered(input, resolved, ReplyModel::Failed(error)) ==> result == Step::<Value>::Failed(error)
        }),
        resolve_model(input, name + seq!['['] + key, state) == Step::<Value>::Failed(
            value_error_model("Missing ']' in format string"@),
        ),
{
    let more = seq!['['] + key + seq![']'];
    let whole = name + more;
    let at = name.len() as int;
    assert(name + seq!['['] + key + seq![']'] =~= whole);
    lemma_resolve_extended(input, name, more, state, value, resolved);
    let shut = at + 1 + key.len();
    assert(whole[at] == '[');
    assert(whole[shut] == ']');
    assert(whole.subrange(at + 1, shut) =~= key);
    lemma_first_of_none(whole, ']', ']', at + 1, shut);
    assert(first_of(whole, ']', ']', at + 1) == shut);
    assert(walk_model(input, whole, shut + 1, read, one_more(resolved)) == Step::Done(read, one_more(resolved)));
    law_digits_are_read_back(n);
    if key.len() > 0 && !is_digit(key[0]) {
        assert(!all_digits(key));
    }
    let open = seq!['['] + key;
    let cut = name + open;
    assert(name + seq!['['] + key =~= cut);
    lemma_resolve_extended(input, name, open, state, value, resolved);
    assert(cut[at] == '[');
    assert(cut.subrange(at + 1, cut.len() as int) =~= key);
    lemma_first_of_none(cut, ']', ']', at + 1, cut.len() as int);
    assert(first_of(cut, ']', ']', at + 1) == cut.len());
}

} // verus!
