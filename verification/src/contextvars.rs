//! Context variables whose name is kept as text, and their tokens.
//!
//! A token records what its `set` displaced and gives it up when it is spent.

use crate::args::{holds_args, zero_one_arg, ArgValues, ArgsModel};
use crate::contextvar::{
    append_address, bind_context_var, context_var_args, optional, push_optional, push_refs, token_text, variable_text,
};
use crate::deque::ref_ids;
use crate::exceptions::{
    raise, raise2, raise3, raised, type_error, type_error_model, value_error_model, ErrorModel, ExcType, RunResult,
};
use crate::heap::{HeapRead, VmModel, VM};
use crate::text::same_text;
use crate::value::{EitherModel, EitherStr, HeapId, Value};
use vstd::prelude::*;

verus! {

/// A context variable: a named slot with an optional default.
pub struct ContextVar {
    pub name: EitherStr,
    pub default: Option<Value>,
    /// The value in force.
    pub value: Option<Value>,
}

/// A context variable as a mathematical value.
#[verifier::ext_equal]
pub struct VarModel {
    pub name: EitherModel,
    pub default: Option<Value>,
    pub value: Option<Value>,
}

impl View for ContextVar {
    type V = VarModel;

    open spec fn view(&self) -> VarModel {
        VarModel { name: self.name@, default: self.default, value: self.value }
    }
}

/// The receipt of a `set`.
#[derive(Clone, Copy, Debug, PartialEq, Eq, Structural)]
pub struct ContextToken {
    /// The variable that the token came from.
    pub var: HeapId,
    /// What the variable held before, where it held anything.
    pub old_value: Option<Value>,
    /// The token was spent.
    pub used: bool,
}

/// What the call of the type makes.
pub open spec fn new_var(vm: VmModel, args: ArgsModel) -> Result<VarModel, ErrorModel> {
    match context_var_args(args, false) {
        Err(error) => Err(error),
        Ok((name, default)) => match vm.either_text(name) {
            None => Err(type_error_model("context variable name must be a str"@)),
            Some(name) => Ok(VarModel { name, default, value: None }),
        },
    }
}

/// Makes a variable.
pub fn init(args: &ArgValues, vm: &VM) -> (var: RunResult<ContextVar>)
    requires
        holds_args(vm@, args@),
    ensures
        match (var, new_var(vm@, args@)) {
            (Ok(var), Ok(expected)) => var@ == expected && vm@.holds_text(var@.name),
            (Err(error), Err(expected)) => error@ == expected,
            _ => false,
        },
{
    let (name, default) = bind_context_var(args, false)?;
    assert(name == args@.positional[0]);
    match vm.as_either_str(name) {
        Some(name) => Ok(ContextVar { name, default, value: None }),
        None => Err(type_error("context variable name must be a str")),
    }
}

/// What `get` gives: the value in force, or else the fallback of the call, or
/// else that of the variable. `shown` is the variable as text.
pub open spec fn found(var: VarModel, fallback: Option<Value>, shown: Seq<char>) -> Result<Value, ErrorModel> {
    match (var.value, fallback, var.default) {
        (Some(value), _, _) => Ok(value),
        (None, Some(value), _) => Ok(value),
        (None, None, Some(value)) => Ok(value),
        (None, None, None) => Err(raised(ExcType::LookupError, shown)),
    }
}

/// What `set` leaves of the variable, and the token that undoes it.
pub open spec fn installed(var: VarModel, id: HeapId, value: Value) -> (VarModel, ContextToken) {
    (VarModel { value: Some(value), ..var }, ContextToken { var: id, old_value: var.value, used: false })
}

/// What `reset` leaves of the variable and of the token. `token` is what the
/// argument is, where it is a token, and `shown` the argument as text.
pub open spec fn restored(var: VarModel, id: HeapId, token: Option<ContextToken>, shown: Seq<char>) -> Result<
    (VarModel, ContextToken),
    ErrorModel,
> {
    match token {
        None => Err(type_error_model("expected an instance of Token, got "@ + shown)),
        Some(token) => if token.used {
            Err(raised(ExcType::RuntimeError, shown + " has already been used once"@))
        } else if token.var != id {
            Err(value_error_model(shown + " was created by a different ContextVar"@))
        } else {
            Ok(
                (
                    VarModel { value: token.old_value, ..var },
                    ContextToken { used: true, old_value: None, ..token },
                ),
            )
        },
    }
}

/// What a method of a variable gives.
#[derive(Clone, Copy, Debug, PartialEq, Eq, Structural)]
pub enum VarAnswer {
    Value(Value),
    /// A new token.
    Token(ContextToken),
    /// Nothing, and the token that was spent.
    Spent(ContextToken),
}

/// The argument of a call that takes exactly one.
pub open spec fn only_argument(name: Seq<char>, missing: Seq<char>, args: ArgsModel) -> Result<Value, ErrorModel> {
    match zero_one_arg(name, args) {
        Err(error) => Err(error),
        Ok(None) => Err(type_error_model(missing)),
        Ok(Some(value)) => Ok(value),
    }
}

/// What a call of a method by its name leaves and gives. `shown` is the
/// variable as text for `get`, and the argument for `reset`.
pub open spec fn var_call(
    var: VarModel,
    id: HeapId,
    name: Seq<char>,
    args: ArgsModel,
    token: Option<ContextToken>,
    shown: Seq<char>,
) -> (VarModel, Result<VarAnswer, ErrorModel>) {
    if name == "get"@ {
        (
            var,
            match zero_one_arg("get"@, args) {
                Err(error) => Err(error),
                Ok(fallback) => match found(var, fallback, shown) {
                    Err(error) => Err(error),
                    Ok(value) => Ok(VarAnswer::Value(value)),
                },
            },
        )
    } else if name == "set"@ {
        match only_argument("set"@, "ContextVar.set() takes exactly one argument (0 given)"@, args) {
            Err(error) => (var, Err(error)),
            Ok(value) => {
                let (next, token) = installed(var, id, value);
                (next, Ok(VarAnswer::Token(token)))
            },
        }
    } else if name == "reset"@ {
        match only_argument("reset"@, "ContextVar.reset() takes exactly one argument (0 given)"@, args) {
            Err(error) => (var, Err(error)),
            Ok(_) => match restored(var, id, token, shown) {
                Err(error) => (var, Err(error)),
                Ok((next, spent)) => (next, Ok(VarAnswer::Spent(spent))),
            },
        }
    } else {
        (
            var,
            Err(raised(ExcType::AttributeError, "'ContextVar' object has no attribute '"@ + name + "'"@)),
        )
    }
}

impl HeapRead<ContextVar> {
    /// `get`: the value in force, or a fallback.
    pub fn call_get(&self, args: &ArgValues, shown: &str) -> (value: RunResult<Value>)
        ensures
            match zero_one_arg("get"@, args@) {
                Err(expected) => value matches Err(error) && error@ == expected,
                Ok(fallback) => match (value, found(self.item@, fallback, shown@)) {
                    (Ok(value), Ok(expected)) => value == expected,
                    (Err(error), Err(expected)) => error@ == expected,
                    _ => false,
                },
            },
    {
        let fallback = args.get_zero_one_arg("get")?;
        if let Some(value) = self.item.value {
            return Ok(value);
        }
        if let Some(fallback) = fallback {
            return Ok(fallback);
        }
        if let Some(default) = self.item.default {
            return Ok(default);
        }
        Err(raise(ExcType::LookupError, shown))
    }

    /// `set`: installs a value, and gives the token that undoes it.
    pub fn call_set(&mut self, id: HeapId, args: &ArgValues) -> (token: RunResult<ContextToken>)
        ensures
            match only_argument("set"@, "ContextVar.set() takes exactly one argument (0 given)"@, args@) {
                Err(expected) => final(self).item@ == old(self).item@ && (token matches Err(error) && error@
                    == expected),
                Ok(value) => token matches Ok(token) && (final(self).item@, token) == installed(
                    old(self).item@,
                    id,
                    value,
                ),
            },
    {
        let value: Value = match args.get_zero_one_arg("set")? {
            Some(value) => value,
            None => return Err(type_error("ContextVar.set() takes exactly one argument (0 given)")),
        };
        let old_value = self.item.value;
        self.item.value = Some(value);
        Ok(ContextToken { var: id, old_value, used: false })
    }

    /// `reset`: restores what the token recorded. Gives the token as it is
    /// then.
    pub fn call_reset(&mut self, id: HeapId, args: &ArgValues, token: Option<ContextToken>, shown: &str) -> (spent:
        RunResult<ContextToken>)
        ensures
            match only_argument("reset"@, "ContextVar.reset() takes exactly one argument (0 given)"@, args@) {
                Err(expected) => final(self).item@ == old(self).item@ && (spent matches Err(error) && error@
                    == expected),
                Ok(_) => match (spent, restored(old(self).item@, id, token, shown@)) {
                    (Ok(spent), Ok((next, expected))) => final(self).item@ == next && spent == expected,
                    (Err(error), Err(expected)) => error@ == expected && final(self).item@ == old(self).item@,
                    _ => false,
                },
            },
    {
        if args.get_zero_one_arg("reset")?.is_none() {
            return Err(type_error("ContextVar.reset() takes exactly one argument (0 given)"));
        }
        let token = match token {
            Some(token) => token,
            None => return Err(raise2(ExcType::TypeError, "expected an instance of Token, got ", shown)),
        };
        if token.used {
            return Err(raise2(ExcType::RuntimeError, shown, " has already been used once"));
        }
        if token.var != id {
            return Err(raise2(ExcType::ValueError, shown, " was created by a different ContextVar"));
        }
        self.item.value = token.old_value;
        Ok(ContextToken { var: token.var, old_value: None, used: true })
    }

    /// Calls a method by its name.
    pub fn py_call_attr(
        &mut self,
        id: HeapId,
        name: &str,
        args: &ArgValues,
        token: Option<ContextToken>,
        shown: &str,
    ) -> (answer: RunResult<VarAnswer>)
        ensures
            ({
                let (next, expected) = var_call(old(self).item@, id, name@, args@, token, shown@);
                final(self).item@ == next && match (answer, expected) {
                    (Ok(answer), Ok(expected)) => answer == expected,
                    (Err(error), Err(expected)) => error@ == expected,
                    _ => false,
                }
            }),
    {
        if same_text(name, "get") {
            let value: Value = self.call_get(args, shown)?;
            return Ok(VarAnswer::Value(value));
        }
        if same_text(name, "set") {
            let token = self.call_set(id, args)?;
            return Ok(VarAnswer::Token(token));
        }
        if same_text(name, "reset") {
            let spent = self.call_reset(id, args, token, shown)?;
            return Ok(VarAnswer::Spent(spent));
        }
        Err(raise3(ExcType::AttributeError, "'ContextVar' object has no attribute '", name, "'"))
    }

    /// The attribute that can be read: the name, as a value.
    pub fn py_getattr(&self, name: &str, vm: &mut VM) -> (value: Option<Value>)
        ensures
            if name@ == "name"@ {
                value is Some && (final(vm)@, value->Some_0) == old(vm)@.with_text(self.item@.name)
            } else {
                value is None && final(vm)@ == old(vm)@
            },
    {
        if same_text(name, "name") {
            Some(vm.allocate_text(&self.item.name))
        } else {
            None
        }
    }

    /// The variable as text, from the text of its default.
    pub fn repr_fmt(&self, id: HeapId, default: Option<&str>, vm: &VM) -> (text: String)
        requires
            vm@.holds_text(self.item@.name),
        ensures
            text@ == variable_text(
                "'"@ + vm@.chars(self.item@.name) + "'"@,
                match default {
                    Some(default) => Some(default@),
                    None => None,
                },
                id,
            ),
    {
        let mut text = "<ContextVar name=".to_owned();
        let mut name = "'".to_owned();
        name.append(vm.text_of_either(&self.item.name));
        name.append("'");
        text.append(name.as_str());
        if let Some(default) = default {
            text.append(" default=");
            text.append(default);
        }
        append_address(&mut text, id);
        text
    }
}

impl HeapRead<ContextToken> {
    /// The attributes that can be read. What was not there reads as nothing.
    pub fn py_getattr(&self, name: &str) -> (value: Option<Value>)
        ensures
            value == if name@ == "var"@ {
                Some(Value::Ref(self.item.var))
            } else if name@ == "old_value"@ {
                Some(
                    match self.item.old_value {
                        Some(value) => value,
                        None => Value::NoneValue,
                    },
                )
            } else {
                None
            },
    {
        if same_text(name, "var") {
            Some(Value::Ref(self.item.var))
        } else if same_text(name, "old_value") {
            match self.item.old_value {
                Some(value) => Some(value),
                None => Some(Value::NoneValue),
            }
        } else {
            None
        }
    }

    /// The token as text, from the text of its variable.
    pub fn repr_fmt(&self, id: HeapId, var: &str) -> (text: String)
        ensures
            text@ == token_text(self.item.used, var@, id),
    {
        let mut text = if self.item.used {
            "<Token used var=".to_owned()
        } else {
            "<Token var=".to_owned()
        };
        text.append(var);
        append_address(&mut text, id);
        text
    }
}

impl ContextVar {
    /// The values that the variable keeps alive.
    pub fn owned_values(&self) -> (values: Vec<Value>)
        ensures
            values@ == kept_by_var(self@),
    {
        let mut values: Vec<Value> = Vec::new();
        push_optional(&mut values, self.default);
        push_optional(&mut values, self.value);
        assert(values@ =~= kept_by_var(self@));
        values
    }

    /// Lists the items of the heap that the variable keeps alive.
    pub fn py_dec_ref_ids(&mut self, stack: &mut Vec<HeapId>)
        ensures
            final(self)@ == old(self)@,
            final(stack)@ == old(stack)@ + ref_ids(kept_by_var(old(self)@), 0),
    {
        let values = self.owned_values();
        push_refs(&values, stack);
    }
}

impl ContextToken {
    /// The values that the token keeps alive.
    pub fn owned_values(&self) -> (values: Vec<Value>)
        ensures
            values@ == kept_by_token(*self),
    {
        let mut values: Vec<Value> = vec![Value::Ref(self.var)];
        push_optional(&mut values, self.old_value);
        assert(values@ =~= kept_by_token(*self));
        values
    }

    /// Lists the items of the heap that the token keeps alive.
    pub fn py_dec_ref_ids(&mut self, stack: &mut Vec<HeapId>)
        ensures
            *final(self) == *old(self),
            final(stack)@ == old(stack)@ + ref_ids(kept_by_token(*old(self)), 0),
    {
        let values = self.owned_values();
        push_refs(&values, stack);
    }
}

/// The values that a variable keeps alive.
pub open spec fn kept_by_var(var: VarModel) -> Seq<Value> {
    optional(var.default) + optional(var.value)
}

/// The values that a token keeps alive.
pub open spec fn kept_by_token(token: ContextToken) -> Seq<Value> {
    seq![Value::Ref(token.var)] + optional(token.old_value)
}

/// Resetting with the token of a `set` puts the variable back as it was,
/// whatever was set in between.
pub proof fn law_restoring_undoes_installing(
    var: VarModel,
    id: HeapId,
    value: Value,
    between: Option<Value>,
    shown: Seq<char>,
)
    ensures
        ({
            let (next, token) = installed(var, id, value);
            restored(VarModel { value: between, ..next }, id, Some(token), shown) matches Ok((back, _)) && back == var
        }),
{
}

/// A token that was spent restores nothing more, at any variable.
pub proof fn law_spent_token_is_refused(
    var: VarModel,
    id: HeapId,
    token: ContextToken,
    other: VarModel,
    other_id: HeapId,
    shown: Seq<char>,
)
    ensures
        restored(var, id, Some(token), shown) matches Ok((_, spent)) ==> restored(other, other_id, Some(spent), shown)
            == Err::<(VarModel, ContextToken), ErrorModel>(
            raised(ExcType::RuntimeError, shown + " has already been used once"@),
        ),
{
}

} // verus!
