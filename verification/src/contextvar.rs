//! Context variables, whose value in force is kept by the variable itself.
//!
//! `set` records what the variable held in a token, and `reset` puts it back.

use crate::args::{count_message, holds_args, push_decimal_wide, one_arg, zero_one_arg, ArgValues, ArgsModel};
use crate::deque::ref_ids;
use crate::exceptions::{raise, raise2, raise3, raised, type_error, type_error_model, ErrorModel, ExcType, RunError, RunResult};
use crate::heap::{HeapRead, VmModel, VM};
use crate::text::{hexadecimal, push_hexadecimal, same_text};
use crate::value::{HeapId, Value};
use vstd::prelude::*;

verus! {

/// A context variable.
#[derive(Clone, Copy, Debug, PartialEq, Eq, Structural)]
pub struct ContextVar {
    pub name: Value,
    /// What `get` falls back to, where the variable was made with it.
    pub default: Option<Value>,
    /// The value in force.
    pub value: Option<Value>,
}

/// What `set` hands back and `reset` spends.
#[derive(Clone, Copy, Debug, PartialEq, Eq, Structural)]
pub struct ContextVarToken {
    /// The variable that the token belongs to.
    pub var: HeapId,
    /// What the variable held before.
    pub old_value: Option<Value>,
    /// The token was spent.
    pub used: bool,
}

/// The name and the default of a variable that a call makes. `bounded` picks
/// the wording about positional arguments beyond the name.
pub open spec fn context_var_args(args: ArgsModel, bounded: bool) -> Result<(Value, Option<Value>), ErrorModel> {
    let positional = args.positional.len();
    let total = positional + args.keywords.len();
    if total > 2 {
        Err(raised(ExcType::TypeError, count_message("ContextVar"@, "() takes at most 2 arguments ("@, total, " given)"@)))
    } else if positional > 1 {
        Err(
            raised(
                ExcType::TypeError,
                count_message(
                    "ContextVar"@,
                    if bounded {
                        "() takes at most 1 positional argument ("@
                    } else {
                        "() takes exactly 1 positional argument ("@
                    },
                    positional,
                    " given)"@,
                ),
            ),
        )
    } else if positional == 0 {
        Err(type_error_model("ContextVar() takes at least 1 positional argument (0 given)"@))
    } else if args.keywords.len() == 0 {
        Ok((args.positional[0], None))
    } else if args.keywords[0].0 == "default"@ {
        Ok((args.positional[0], Some(args.keywords[0].1)))
    } else {
        Err(
            type_error_model(
                "ContextVar() got an unexpected keyword argument '"@ + args.keywords[0].0 + "'"@,
            ),
        )
    }
}

/// Reports a count of arguments.
fn count_refused(what: &str, count: u128) -> (error: RunError)
    ensures
        error@ == raised(ExcType::TypeError, count_message("ContextVar"@, what@, count as nat, " given)"@)),
{
    let mut text = "ContextVar".to_owned();
    text.append(what);
    push_decimal_wide(&mut text, count);
    text.append(" given)");
    type_error(text.as_str())
}

/// Reads the name and the default of a variable that a call makes.
pub fn bind_context_var(args: &ArgValues, bounded: bool) -> (bound: RunResult<(Value, Option<Value>)>)
    ensures
        match (bound, context_var_args(args@, bounded)) {
            (Ok(bound), Ok(expected)) => bound == expected,
            (Err(error), Err(expected)) => error@ == expected,
            _ => false,
        },
{
    let positional: usize = args.positional.len();
    let keywords: usize = args.keywords.len();
    if positional > 2 || keywords > 2 || positional + keywords > 2 {
        return Err(count_refused("() takes at most 2 arguments (", positional as u128 + keywords as u128));
    }
    if positional > 1 {
        return Err(
            count_refused(
                if bounded {
                    "() takes at most 1 positional argument ("
                } else {
                    "() takes exactly 1 positional argument ("
                },
                positional as u128,
            ),
        );
    }
    if positional == 0 {
        return Err(type_error("ContextVar() takes at least 1 positional argument (0 given)"));
    }
    if keywords == 0 {
        return Ok((args.positional[0], None));
    }
    assert(args@.keywords[0] == (args.keywords@[0].0@, args.keywords@[0].1));
    let name: &str = args.keywords[0].0.as_str();
    if same_text(name, "default") {
        Ok((args.positional[0], Some(args.keywords[0].1)))
    } else {
        Err(raise3(ExcType::TypeError, "ContextVar() got an unexpected keyword argument '", name, "'"))
    }
}

/// What the call of the type makes.
pub open spec fn new_context_var(vm: VmModel, args: ArgsModel) -> Result<ContextVar, ErrorModel> {
    match context_var_args(args, true) {
        Err(error) => Err(error),
        Ok((name, default)) => if vm.text_of(name) is None {
            Err(type_error_model("context variable name must be a str"@))
        } else {
            Ok(ContextVar { name, default, value: None })
        },
    }
}

/// What `get` gives: the value in force, or else the fallback of the call, or
/// else that of the variable. `shown` is the variable as text.
pub open spec fn got(var: ContextVar, fallback: Option<Value>, shown: Seq<char>) -> Result<Value, ErrorModel> {
    match (var.value, fallback, var.default) {
        (Some(value), _, _) => Ok(value),
        (None, Some(value), _) => Ok(value),
        (None, None, Some(value)) => Ok(value),
        (None, None, None) => Err(raised(ExcType::LookupError, shown)),
    }
}

/// What `set` leaves of the variable, and the token that undoes it.
pub open spec fn set_model(var: ContextVar, id: HeapId, value: Value) -> (ContextVar, ContextVarToken) {
    (
        ContextVar { value: Some(value), ..var },
        ContextVarToken { var: id, old_value: var.value, used: false },
    )
}

/// What spending a token leaves of the variable and of the token.
pub open spec fn spend_model(var: ContextVar, token: ContextVarToken, shown: Seq<char>) -> Result<
    (ContextVar, ContextVarToken),
    ErrorModel,
> {
    if token.used {
        Err(raised(ExcType::RuntimeError, shown + " has already been used once"@))
    } else {
        Ok((ContextVar { value: token.old_value, ..var }, ContextVarToken { used: true, ..token }))
    }
}

/// What `reset` leaves of the variable and of the token. `token` is what the
/// argument is, where it is a token, and `shown` the argument as text.
pub open spec fn reset_model(var: ContextVar, id: HeapId, token: Option<ContextVarToken>, shown: Seq<char>) -> Result<
    (ContextVar, ContextVarToken),
    ErrorModel,
> {
    match token {
        None => Err(type_error_model("expected an instance of Token, got "@ + shown)),
        Some(token) => if token.var != id {
            Err(raised(ExcType::ValueError, shown + " was created by a different ContextVar"@))
        } else {
            spend_model(var, token, shown)
        },
    }
}

/// What a method of a variable gives.
#[derive(Clone, Copy, Debug, PartialEq, Eq, Structural)]
pub enum ContextAnswer {
    Value(Value),
    /// A new token.
    Token(ContextVarToken),
    /// Nothing, and the token that was spent.
    Spent(ContextVarToken),
}

/// What a call of a method by its name leaves and gives. `shown` is the
/// variable as text for `get`, and the argument for `reset`.
pub open spec fn context_call(
    var: ContextVar,
    id: HeapId,
    name: Seq<char>,
    args: ArgsModel,
    token: Option<ContextVarToken>,
    shown: Seq<char>,
) -> (ContextVar, Result<ContextAnswer, ErrorModel>) {
    if name == "get"@ {
        (
            var,
            match zero_one_arg("get"@, args) {
                Err(error) => Err(error),
                Ok(fallback) => match got(var, fallback, shown) {
                    Err(error) => Err(error),
                    Ok(value) => Ok(ContextAnswer::Value(value)),
                },
            },
        )
    } else if name == "set"@ {
        match one_arg("ContextVar.set"@, args) {
            Err(error) => (var, Err(error)),
            Ok(value) => {
                let (next, token) = set_model(var, id, value);
                (next, Ok(ContextAnswer::Token(token)))
            },
        }
    } else if name == "reset"@ {
        match one_arg("ContextVar.reset"@, args) {
            Err(error) => (var, Err(error)),
            Ok(_) => match reset_model(var, id, token, shown) {
                Err(error) => (var, Err(error)),
                Ok((next, spent)) => (next, Ok(ContextAnswer::Spent(spent))),
            },
        }
    } else {
        (
            var,
            Err(
                raised(
                    ExcType::AttributeError,
                    "'ContextVar' object has no attribute '"@ + name + "'"@,
                ),
            ),
        )
    }
}

/// Spends a token: marks it used and puts back what its `set` displaced.
pub fn spend_token(token: &mut ContextVarToken, var: &mut ContextVar, shown: &str) -> (done: RunResult<()>)
    ensures
        match (done, spend_model(*old(var), *old(token), shown@)) {
            (Ok(_), Ok((next, spent))) => *final(var) == next && *final(token) == spent,
            (Err(error), Err(expected)) => error@ == expected && *final(var) == *old(var) && *final(token)
                == *old(token),
            _ => false,
        },
{
    if token.used {
        return Err(raise2(ExcType::RuntimeError, shown, " has already been used once"));
    }
    token.used = true;
    var.value = token.old_value;
    Ok(())
}

impl ContextVar {
    /// Makes a variable.
    pub fn init(args: &ArgValues, vm: &VM) -> (var: RunResult<ContextVar>)
        requires
            holds_args(vm@, args@),
        ensures
            match (var, new_context_var(vm@, args@)) {
                (Ok(var), Ok(expected)) => var == expected,
                (Err(error), Err(expected)) => error@ == expected,
                _ => false,
            },
    {
        let (name, default) = bind_context_var(args, true)?;
        assert(name == args@.positional[0]);
        if vm.get_text(name).is_none() {
            return Err(type_error("context variable name must be a str"));
        }
        Ok(ContextVar { name, default, value: None })
    }

    /// The values that the variable keeps alive.
    pub open spec fn kept(self) -> Seq<Value> {
        seq![self.name] + optional(self.default) + optional(self.value)
    }

    /// The values that the variable keeps alive.
    pub fn owned_values(&self) -> (values: Vec<Value>)
        ensures
            values@ == self.kept(),
    {
        let mut values: Vec<Value> = vec![self.name];
        push_optional(&mut values, self.default);
        push_optional(&mut values, self.value);
        assert(values@ =~= self.kept());
        values
    }

    /// Lists the items of the heap that the variable keeps alive.
    pub fn py_dec_ref_ids(&mut self, stack: &mut Vec<HeapId>)
        ensures
            *final(self) == *old(self),
            final(stack)@ == old(stack)@ + ref_ids(old(self).kept(), 0),
    {
        let values = self.owned_values();
        push_refs(&values, stack);
    }
}

impl ContextVarToken {
    /// The values that the token keeps alive.
    pub open spec fn kept(self) -> Seq<Value> {
        seq![Value::Ref(self.var)] + optional(self.old_value)
    }

    /// The values that the token keeps alive.
    pub fn owned_values(&self) -> (values: Vec<Value>)
        ensures
            values@ == self.kept(),
    {
        let mut values: Vec<Value> = vec![Value::Ref(self.var)];
        push_optional(&mut values, self.old_value);
        assert(values@ =~= self.kept());
        values
    }

    /// Lists the items of the heap that the token keeps alive.
    pub fn py_dec_ref_ids(&mut self, stack: &mut Vec<HeapId>)
        ensures
            *final(self) == *old(self),
            final(stack)@ == old(stack)@ + ref_ids(old(self).kept(), 0),
    {
        let values = self.owned_values();
        push_refs(&values, stack);
    }
}

/// A value that may be missing, as a list.
pub open spec fn optional(value: Option<Value>) -> Seq<Value> {
    match value {
        Some(value) => seq![value],
        None => Seq::empty(),
    }
}

/// Puts a value that may be missing behind a list.
pub fn push_optional(values: &mut Vec<Value>, value: Option<Value>)
    ensures
        final(values)@ == old(values)@ + optional(value),
{
    if let Some(value) = value {
        values.push(value);
    }
    assert(values@ =~= old(values)@ + optional(value));
}

/// Lists the items of the heap among values.
pub fn push_refs(values: &Vec<Value>, stack: &mut Vec<HeapId>)
    ensures
        final(stack)@ == old(stack)@ + ref_ids(values@, 0),
{
    let mut i: usize = 0;
    while i < values.len()
        invariant
            i <= values@.len(),
            stack@ + ref_ids(values@, i as int) == old(stack)@ + ref_ids(values@, 0),
        decreases values@.len() - i,
    {
        let ghost done = stack@;
        if let Value::Ref(id) = values[i] {
            stack.push(id);
            assert(done.push(id) + ref_ids(values@, i + 1) =~= done + (seq![id] + ref_ids(values@, i + 1)));
        } else {
            assert(ref_ids(values@, i as int) == ref_ids(values@, i + 1));
        }
        i = i + 1;
    }
    assert(stack@ + Seq::<HeapId>::empty() =~= stack@);
}

impl HeapRead<ContextVar> {
    /// `get`: the value in force, or a fallback.
    pub fn get_value(&self, args: &ArgValues, shown: &str) -> (value: RunResult<Value>)
        ensures
            match zero_one_arg("get"@, args@) {
                Err(expected) => value matches Err(error) && error@ == expected,
                Ok(fallback) => match (value, got(self.item, fallback, shown@)) {
                    (Ok(value), Ok(expected)) => value == expected,
                    (Err(error), Err(expected)) => error@ == expected,
                    _ => false,
                },
            },
    {
        let fallback = args.get_zero_one_arg("get")?;
        if let Some(value) = self.item.value {
            return Ok(value);
        }
        if let Some(value) = fallback {
            return Ok(value);
        }
        match self.item.default {
            Some(value) => Ok(value),
            None => Err(raise(ExcType::LookupError, shown)),
        }
    }

    /// `set`: binds a value, and hands back the token that undoes it.
    pub fn set_value(&mut self, id: HeapId, args: &ArgValues) -> (token: RunResult<ContextVarToken>)
        ensures
            match one_arg("ContextVar.set"@, args@) {
                Err(expected) => final(self).item == old(self).item && (token matches Err(error) && error@ == expected),
                Ok(value) => token matches Ok(token) && (final(self).item, token) == set_model(
                    old(self).item,
                    id,
                    value,
                ),
            },
    {
        let value: Value = args.get_one_arg("ContextVar.set")?;
        let old_value = self.item.value;
        self.item.value = Some(value);
        Ok(ContextVarToken { var: id, old_value, used: false })
    }

    /// `reset`: puts back what the `set` that made the token displaced. Gives
    /// the token as it is then.
    pub fn reset_value(&mut self, id: HeapId, args: &ArgValues, token: Option<ContextVarToken>, shown: &str) -> (spent:
        RunResult<ContextVarToken>)
        ensures
            match one_arg("ContextVar.reset"@, args@) {
                Err(expected) => final(self).item == old(self).item && (spent matches Err(error) && error@ == expected),
                Ok(_) => match (spent, reset_model(old(self).item, id, token, shown@)) {
                    (Ok(spent), Ok((next, expected))) => final(self).item == next && spent == expected,
                    (Err(error), Err(expected)) => error@ == expected && final(self).item == old(self).item,
                    _ => false,
                },
            },
    {
        let _argument: Value = args.get_one_arg("ContextVar.reset")?;
        let mut token = match token {
            Some(token) => token,
            None => return Err(raise2(ExcType::TypeError, "expected an instance of Token, got ", shown)),
        };
        if token.var != id {
            return Err(raise2(ExcType::ValueError, shown, " was created by a different ContextVar"));
        }
        spend_token(&mut token, &mut self.item, shown)?;
        Ok(token)
    }

    /// Calls a method by its name.
    pub fn py_call_attr(
        &mut self,
        id: HeapId,
        name: &str,
        args: &ArgValues,
        token: Option<ContextVarToken>,
        shown: &str,
    ) -> (answer: RunResult<ContextAnswer>)
        ensures
            ({
                let (next, expected) = context_call(old(self).item, id, name@, args@, token, shown@);
                final(self).item == next && match (answer, expected) {
                    (Ok(answer), Ok(expected)) => answer == expected,
                    (Err(error), Err(expected)) => error@ == expected,
                    _ => false,
                }
            }),
    {
        if same_text(name, "get") {
            let value: Value = self.get_value(args, shown)?;
            return Ok(ContextAnswer::Value(value));
        }
        if same_text(name, "set") {
            let token = self.set_value(id, args)?;
            return Ok(ContextAnswer::Token(token));
        }
        if same_text(name, "reset") {
            let spent = self.reset_value(id, args, token, shown)?;
            return Ok(ContextAnswer::Spent(spent));
        }
        Err(raise3(ExcType::AttributeError, "'ContextVar' object has no attribute '", name, "'"))
    }

    /// The attribute that can be read.
    pub fn py_getattr(&self, name: &str) -> (value: Option<Value>)
        ensures
            value == if name@ == "name"@ {
                Some(self.item.name)
            } else {
                None
            },
    {
        if same_text(name, "name") {
            Some(self.item.name)
        } else {
            None
        }
    }

    /// The variable as text, from the texts of its name and default.
    pub fn py_repr(&self, id: HeapId, name: &str, default: Option<&str>) -> (text: String)
        ensures
            text@ == variable_text(
                name@,
                match default {
                    Some(default) => Some(default@),
                    None => None,
                },
                id,
            ),
    {
        let mut text = "<ContextVar name=".to_owned();
        text.append(name);
        if let Some(default) = default {
            text.append(" default=");
            text.append(default);
        }
        append_address(&mut text, id);
        text
    }
}

/// A variable as text.
pub open spec fn variable_text(name: Seq<char>, default: Option<Seq<char>>, id: HeapId) -> Seq<char> {
    let named = "<ContextVar name="@ + name;
    let whole = match default {
        Some(default) => named + " default="@ + default,
        None => named,
    };
    whole + address_text(id)
}

/// A token as text.
pub open spec fn token_text(used: bool, var: Seq<char>, id: HeapId) -> Seq<char> {
    (if used {
        "<Token used var="@
    } else {
        "<Token var="@
    }) + var + address_text(id)
}

/// The end of a text that names where an object stands.
pub open spec fn address_text(id: HeapId) -> Seq<char> {
    " at 0x"@ + hexadecimal(id as nat) + ">"@
}

/// Writes where an object stands.
pub fn append_address(text: &mut String, id: HeapId)
    ensures
        final(text)@ == old(text)@ + address_text(id),
{
    text.append(" at 0x");
    push_hexadecimal(text, id as u64);
    text.append(">");
    assert(text@ =~= old(text)@ + address_text(id));
}

impl HeapRead<ContextVarToken> {
    /// The token as text, from the text of its variable.
    pub fn py_repr(&self, id: HeapId, var: &str) -> (text: String)
        ensures
            text@ == token_text(self.item.used, var@, id),
    {
        let mut text = if self.item.used {
            "<Token used var=".to_owned()
        } else {
            "<Token var=".to_owned()
        };
        text.append(var);
        append_address(&mut text, id);
        text
    }

    /// The attribute that can be read.
    pub fn py_getattr(&self, name: &str) -> (value: Option<Value>)
        ensures
            value == if name@ == "var"@ {
                Some(Value::Ref(self.item.var))
            } else {
                None
            },
    {
        if same_text(name, "var") {
            Some(Value::Ref(self.item.var))
        } else {
            None
        }
    }

    /// Enters a `with` block: the token itself.
    pub fn py_enter(&self, id: HeapId) -> (value: Value)
        ensures
            value == Value::Ref(id),
    {
        Value::Ref(id)
    }

    /// Leaves a `with` block: the variable is reset.
    pub fn py_exit(&mut self, var: &mut HeapRead<ContextVar>, shown: &str) -> (value: RunResult<Value>)
        ensures
            match (value, spend_model(old(var).item, old(self).item, shown@)) {
                (Ok(value), Ok((next, spent))) => value == Value::NoneValue && final(var).item == next
                    && final(self).item == spent,
                (Err(error), Err(expected)) => error@ == expected && final(var).item == old(var).item
                    && final(self).item == old(self).item,
                _ => false,
            },
    {
        spend_token(&mut self.item, &mut var.item, shown)?;
        Ok(Value::NoneValue)
    }
}

/// Resetting with the token of a `set` puts the variable back as it was,
/// whatever was set in between.
pub proof fn law_reset_undoes_set(var: ContextVar, id: HeapId, value: Value, between: Option<Value>, shown: Seq<char>)
    ensures
        ({
            let (next, token) = set_model(var, id, value);
            reset_model(ContextVar { value: between, ..next }, id, Some(token), shown) matches Ok((back, _)) && back
                == var
        }),
{
}

/// A token can be spent once.
pub proof fn law_token_is_spent_once(var: ContextVar, token: ContextVarToken, shown: Seq<char>)
    ensures
        spend_model(var, token, shown) matches Ok((next, spent)) ==> spend_model(next, spent, shown) is Err,
{
}

/// A value that was set is what `get` gives, whatever the fallbacks are.
pub proof fn law_get_gives_what_was_set(
    var: ContextVar,
    id: HeapId,
    value: Value,
    fallback: Option<Value>,
    shown: Seq<char>,
)
    ensures
        got(set_model(var, id, value).0, fallback, shown) == Ok::<Value, ErrorModel>(value),
{
}

} // verus!
