//! What the attribute makes of a handler function: the type that stands for
//! the handler, the function that does its work, and the commands that it
//! answers to.

use crate::args::{Arg, ArgView, Args};
use vstd::prelude::*;
use vstd::string::StringExecFns;

verus! {

/// `names` without the names that stand in it earlier already.
pub open spec fn without_repeats(names: Seq<Seq<char>>) -> Seq<Seq<char>>
    decreases names.len(),
{
    if names.len() == 0 {
        Seq::empty()
    } else {
        let earlier = without_repeats(names.drop_last());
        if earlier.contains(names.last()) {
            earlier
        } else {
            earlier.push(names.last())
        }
    }
}

/// The names that one option declares.
pub open spec fn arg_names(arg: ArgView) -> Seq<Seq<char>> {
    match arg {
        ArgView::Command(name) => seq![name],
        ArgView::Commands(names) => without_repeats(names),
    }
}

/// The names that the options declare, option after option.
pub open spec fn declared_names(args: Seq<ArgView>) -> Seq<Seq<char>>
    decreases args.len(),
{
    if args.len() == 0 {
        Seq::empty()
    } else {
        declared_names(args.drop_last()) + arg_names(args.last())
    }
}

/// The command names of a handler function: those that its options declare,
/// or, where they declare none, the name of the function.
pub open spec fn command_names(args: Seq<ArgView>, function_name: Seq<char>) -> Seq<
    Seq<char>,
> {
    if declared_names(args).len() == 0 {
        seq![function_name]
    } else {
        declared_names(args)
    }
}

/// `without_repeats` keeps every name, each once.
pub proof fn lemma_without_repeats(names: Seq<Seq<char>>)
    ensures
        without_repeats(names).no_duplicates(),
        forall|name: Seq<char>| without_repeats(names).contains(name) <==> names.contains(name),
    decreases names.len(),
{
    if names.len() > 0 {
        let shorter = names.drop_last();
        let earlier = without_repeats(shorter);
        let kept = without_repeats(names);
        lemma_without_repeats(shorter);
        assert forall|name: Seq<char>| kept.contains(name) <==> names.contains(name) by {
            assert(earlier.contains(name) <==> shorter.contains(name));
            if kept.contains(name) {
                let i = choose|i: int| 0 <= i < kept.len() && kept[i] == name;
                if i < earlier.len() {
                    assert(earlier[i] == name);
                    assert(earlier.contains(name));
                    let j = choose|j: int| 0 <= j < shorter.len() && shorter[j] == name;
                    assert(names[j] == name);
                } else {
                    assert(names[names.len() - 1] == name);
                }
            }
            if names.contains(name) {
                let j = choose|j: int| 0 <= j < names.len() && names[j] == name;
                if j < shorter.len() {
                    assert(shorter[j] == name);
                    assert(shorter.contains(name));
                }
                if earlier.contains(name) {
                    let i = choose|i: int| 0 <= i < earlier.len() && earlier[i] == name;
                    assert(kept[i] == name);
                } else {
                    assert(names.last() == name);
                    assert(kept[earlier.len() as int] == name);
                }
            }
        }
        assert forall|i: int, j: int|
            0 <= i < kept.len() && 0 <= j < kept.len() && i != j implies kept[i] != kept[j] by {
            if i == earlier.len() {
                assert(earlier.contains(earlier[j]));
            } else if j == earlier.len() {
                assert(earlier.contains(earlier[i]));
            }
        }
    }
}

impl Args {
    /// Whether `name` stands in `names` at `from` or later.
    fn seen_since(names: &Vec<String>, from: usize, name: &String) -> (r: bool)
        requires
            from <= names.len(),
        ensures
            r == names.deep_view().skip(from as int).contains(name@),
    {
        let ghost views = names.deep_view();
        let mut i: usize = from;
        while i < names.len()
            invariant
                from <= i <= names.len(),
                views == names.deep_view(),
                forall|k: int| from <= k < i ==> views[k] != name@,
            decreases names.len() - i,
        {
            if names[i] == *name {
                assert(views.skip(from as int)[i - from] == name@);
                return true;
            }
            i += 1;
        }
        false
    }

    /// The command names of the handler function named `function_name`.
    pub fn command_names(&self, function_name: &str) -> (r: Vec<String>)
        ensures
            r.deep_view() == command_names(self.deep_view(), function_name@),
    {
        let ghost args = self.deep_view();
        let mut names: Vec<String> = Vec::new();
        let mut i: usize = 0;
        assert(names.deep_view() == Seq::<Seq<char>>::empty());
        while i < self.0.len()
            invariant
                i <= self.0.len(),
                args == self.deep_view(),
                names.deep_view() == declared_names(args.take(i as int)),
            decreases self.0.len() - i,
        {
            let ghost before = names.deep_view();
            assert(args.take(i + 1).drop_last() == args.take(i as int));
            assert(args.take(i + 1).last() == self.0[i as int].deep_view());
            match &self.0[i] {
                Arg::Command(name) => {
                    names.push(name.clone());
                    assert(names.deep_view() == before + seq![name@]);
                },
                Arg::Commands(listed) => {
                    let start = names.len();
                    let ghost views = listed.deep_view();
                    let mut j: usize = 0;
                    while j < listed.len()
                        invariant
                            j <= listed.len(),
                            start == before.len(),
                            views == listed.deep_view(),
                            names.deep_view() == before + without_repeats(views.take(j as int)),
                        decreases listed.len() - j,
                    {
                        let ghost kept = without_repeats(views.take(j as int));
                        assert(views.take(j + 1).drop_last() == views.take(j as int));
                        assert(names.deep_view().skip(start as int) == kept);
                        if !Self::seen_since(&names, start, &listed[j]) {
                            let ghost old_names = names.deep_view();
                            names.push(listed[j].clone());
                            assert(names.deep_view() == old_names.push(views[j as int]));
                            assert(names.deep_view() == before + kept.push(views[j as int]));
                        }
                        j += 1;
                    }
                    assert(views.take(j as int) == views);
                },
            }
            i += 1;
        }
        assert(args.take(i as int) == args);
        if names.len() == 0 {
            names.push(function_name.to_owned());
            assert(names.deep_view() == seq![function_name@]);
        }
        names
    }
}

/// The context item that a parameter of a handler function stands for.
#[derive(Clone, Copy, Debug, PartialEq, Eq, Structural)]
pub enum ParamRole {
    /// The bot itself.
    Bot,
    /// The payload of the command message.
    MsgContent,
    /// A snapshot of a value of the state store.
    State,
}

/// The role of a parameter, read off the last word of the path of its type
/// and off whether that word takes a type argument: `State<..>` is a
/// snapshot, `MsgContent` the payload, anything else the bot.
pub open spec fn role_of(last_word: Option<Seq<char>>, has_type_argument: bool) -> ParamRole {
    match last_word {
        Some(word) => if word == "State"@ && has_type_argument {
            ParamRole::State
        } else if word == "MsgContent"@ {
            ParamRole::MsgContent
        } else {
            ParamRole::Bot
        },
        None => ParamRole::Bot,
    }
}

/// Decides which context item a parameter stands for.
pub fn param_role(last_word: Option<&str>, has_type_argument: bool) -> (r: ParamRole)
    ensures
        r == role_of(
            match last_word {
                Some(word) => Some(word@),
                None => None,
            },
            has_type_argument,
        ),
{
    match last_word {
        Some(word) => {
            let word = word.to_owned();
            if word == "State".to_owned() && has_type_argument {
                ParamRole::State
            } else if word == "MsgContent".to_owned() {
                ParamRole::MsgContent
            } else {
                ParamRole::Bot
            }
        },
        None => ParamRole::Bot,
    }
}

/// What the attribute reads of the function that it stands on.
#[derive(Debug, PartialEq, Eq)]
pub struct HandlerFn {
    /// The name of the function.
    pub name: String,
    /// How many parameters the function takes.
    pub inputs: usize,
    /// Whether the function takes a variable number of arguments.
    pub is_variadic: bool,
    /// Whether the function is `unsafe`.
    pub is_unsafe: bool,
}

/// A function that cannot be a handler.
#[derive(Clone, Copy, Debug, PartialEq, Eq, Structural)]
pub enum HandlerFnError {
    /// The function takes a variable number of arguments.
    Variadic,
    /// The function is `unsafe`.
    Unsafe,
}

impl HandlerFnError {
    /// The message of the error.
    pub fn message(&self) -> (r: &'static str)
        ensures
            r@ == match *self {
                HandlerFnError::Variadic => "handler functions are not allowed to be variadic"@,
                HandlerFnError::Unsafe => "handler functions are not allowed to be `unsafe`"@,
            },
    {
        match self {
            HandlerFnError::Variadic => "handler functions are not allowed to be variadic",
            HandlerFnError::Unsafe => "handler functions are not allowed to be `unsafe`",
        }
    }
}

/// What the attribute puts in the place of a handler function.
#[derive(Debug, PartialEq, Eq)]
pub struct Expansion {
    /// The name of the type that stands for the handler: that of the
    /// function.
    pub handler: String,
    /// The new name of the function.
    pub function: String,
    /// The commands that the handler answers to.
    pub commands: Vec<String>,
    /// How many context items are resolved for one call of the function.
    pub params: usize,
}

/// The model of an expansion.
pub struct ExpansionView {
    /// The name of the type that stands for the handler.
    pub handler: Seq<char>,
    /// The new name of the function.
    pub function: Seq<char>,
    /// The commands that the handler answers to.
    pub commands: Seq<Seq<char>>,
    /// How many context items are resolved for one call of the function.
    pub params: nat,
}

impl DeepView for Expansion {
    type V = ExpansionView;

    open spec fn deep_view(&self) -> ExpansionView {
        ExpansionView {
            handler: self.handler@,
            function: self.function@,
            commands: self.commands.deep_view(),
            params: self.params as nat,
        }
    }
}

/// The name under which the function goes on: `_`, its name, `_impl`.
pub open spec fn implementation_name(name: Seq<char>) -> Seq<char> {
    "_"@ + name + "_impl"@
}

/// What becomes of the function `function` under the options `args`. A
/// variadic function is refused, then an `unsafe` one.
pub open spec fn expansion(args: Seq<ArgView>, function: HandlerFn) -> Result<
    ExpansionView,
    HandlerFnError,
> {
    if function.is_variadic {
        Err(HandlerFnError::Variadic)
    } else if function.is_unsafe {
        Err(HandlerFnError::Unsafe)
    } else {
        Ok(
            ExpansionView {
                handler: function.name@,
                function: implementation_name(function.name@),
                commands: command_names(args, function.name@),
                params: function.inputs as nat,
            },
        )
    }
}

/// Decides what the attribute makes of the function `function` with the
/// options `args`.
pub fn expand(args: &Args, function: &HandlerFn) -> (r: Result<Expansion, HandlerFnError>)
    ensures
        match r {
            Ok(expanded) => expansion(args.deep_view(), *function) == Ok::<
                ExpansionView,
                HandlerFnError,
            >(expanded.deep_view()),
            Err(e) => expansion(args.deep_view(), *function) == Err::<ExpansionView, HandlerFnError>(
                e,
            ),
        },
{
    if function.is_variadic {
        return Err(HandlerFnError::Variadic);
    }
    if function.is_unsafe {
        return Err(HandlerFnError::Unsafe);
    }
    let mut renamed = "_".to_owned();
    renamed.append(function.name.as_str());
    renamed.append("_impl");
    Ok(
        Expansion {
            handler: function.name.clone(),
            function: renamed,
            commands: args.command_names(function.name.as_str()),
            params: function.inputs,
        },
    )
}

} // verus!
