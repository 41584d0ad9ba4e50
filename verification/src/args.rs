//! The options with which a handler function declares its command names,
//! and their grammar.
//!
//! The options are written as a list, separated by commas, with an optional
//! comma at the end. An option is `command = "name"` or
//! `commands = ["a", "b"]`; the names in the brackets are separated by commas
//! too, with an optional comma at the end.

use vstd::prelude::*;

verus! {

/// How a group of tokens is enclosed.
#[derive(Clone, Copy, Debug, PartialEq, Eq, Structural)]
pub enum Delimiter {
    /// `( ... )`
    Parenthesis,
    /// `{ ... }`
    Brace,
    /// `[ ... ]`
    Bracket,
    /// A group without visible delimiters.
    Invisible,
}

/// A token of the option list. A group of tokens is given by the token that
/// opens it, its tokens and the token that closes it.
#[derive(Debug, PartialEq, Eq)]
pub enum Token {
    /// A word.
    Ident(String),
    /// A punctuation character.
    Punct(char),
    /// A string literal, by the text that it denotes.
    Str(String),
    /// A literal of any other kind.
    Literal,
    /// The opening of a group.
    Open(Delimiter),
    /// The end of a group.
    Close(Delimiter),
}

/// The model of a token.
pub enum TokenView {
    /// A word.
    Ident(Seq<char>),
    /// A punctuation character.
    Punct(char),
    /// A string literal, by the text that it denotes.
    Str(Seq<char>),
    /// A literal of any other kind.
    Literal,
    /// The opening of a group.
    Open(Delimiter),
    /// The end of a group.
    Close(Delimiter),
}

impl DeepView for Token {
    type V = TokenView;

    open spec fn deep_view(&self) -> TokenView {
        match *self {
            Token::Ident(word) => TokenView::Ident(word@),
            Token::Punct(c) => TokenView::Punct(c),
            Token::Str(text) => TokenView::Str(text@),
            Token::Literal => TokenView::Literal,
            Token::Open(delimiter) => TokenView::Open(delimiter),
            Token::Close(delimiter) => TokenView::Close(delimiter),
        }
    }
}

/// One option of a handler declaration.
#[derive(Debug, PartialEq, Eq)]
pub enum Arg {
    /// `command = "name"`: one command name.
    Command(String),
    /// `commands = ["a", "b"]`: a set of command names; a name that is written
    /// twice counts once.
    Commands(Vec<String>),
}

/// The model of an option.
pub enum ArgView {
    /// One command name.
    Command(Seq<char>),
    /// A set of command names, as they were written.
    Commands(Seq<Seq<char>>),
}

impl DeepView for Arg {
    type V = ArgView;

    open spec fn deep_view(&self) -> ArgView {
        match *self {
            Arg::Command(name) => ArgView::Command(name@),
            Arg::Commands(names) => ArgView::Commands(names.deep_view()),
        }
    }
}

/// The options of a handler declaration, in the order in which they were
/// written.
#[derive(Debug, PartialEq, Eq)]
pub struct Args(pub Vec<Arg>);

impl DeepView for Args {
    type V = Seq<ArgView>;

    open spec fn deep_view(&self) -> Seq<ArgView> {
        self.0.deep_view()
    }
}

/// What is wrong with a list of options.
#[derive(Clone, Copy, Debug, PartialEq, Eq, Structural)]
pub enum ArgsErrorKind {
    /// An option has to start with a word.
    ExpectedIdentifier,
    /// The word is neither `command` nor `commands`.
    UnknownOption,
    /// The word of an option has to be followed by `=`.
    ExpectedEquals,
    /// A string literal has to stand here.
    ExpectedStringLiteral,
    /// `commands =` has to be followed by a list in square brackets.
    ExpectedArray,
    /// An attribute stands where a name or a list of names is expected.
    AttributeNotAllowed,
    /// A comma has to stand here.
    ExpectedComma,
    /// The list of names is not closed.
    UnclosedList,
}

/// A list of options that does not follow the grammar.
#[derive(Clone, Copy, Debug, PartialEq, Eq, Structural)]
pub struct ArgsError {
    /// The position of the token at which the list goes wrong; the number of
    /// tokens where it ends too early.
    pub at: usize,
    /// What is wrong there.
    pub kind: ArgsErrorKind,
}

/// The model of an error: its position and its kind.
pub type Flaw = (int, ArgsErrorKind);

/// The token at position `i`, if there is one.
pub open spec fn token_at(tokens: Seq<TokenView>, i: int) -> Option<TokenView> {
    if 0 <= i < tokens.len() {
        Some(tokens[i])
    } else {
        None
    }
}

/// Reads names up to the closing bracket, from position `i` on: `seen` with
/// the names added and the position after the bracket, or what is wrong.
pub open spec fn list_from(tokens: Seq<TokenView>, i: int, seen: Seq<Seq<char>>) -> Result<
    (Seq<Seq<char>>, int),
    Flaw,
>
    decreases tokens.len() - i,
{
    match token_at(tokens, i) {
        None => Err((i, ArgsErrorKind::UnclosedList)),
        Some(TokenView::Close(Delimiter::Bracket)) => Ok((seen, i + 1)),
        Some(TokenView::Str(name)) => match token_at(tokens, i + 1) {
            None => Err((i + 1, ArgsErrorKind::UnclosedList)),
            Some(TokenView::Punct(',')) => list_from(tokens, i + 2, seen.push(name)),
            Some(TokenView::Close(Delimiter::Bracket)) => Ok((seen.push(name), i + 2)),
            Some(_) => Err((i + 1, ArgsErrorKind::ExpectedComma)),
        },
        Some(TokenView::Punct('#')) => Err((i, ArgsErrorKind::AttributeNotAllowed)),
        Some(_) => Err((i, ArgsErrorKind::ExpectedStringLiteral)),
    }
}

/// Reads one option at position `i`: the option and the position after it,
/// or what is wrong.
pub open spec fn option_at(tokens: Seq<TokenView>, i: int) -> Result<(ArgView, int), Flaw> {
    match token_at(tokens, i) {
        Some(TokenView::Ident(word)) => {
            if word != "command"@ && word != "commands"@ {
                Err((i, ArgsErrorKind::UnknownOption))
            } else if token_at(tokens, i + 1) != Some(TokenView::Punct('=')) {
                Err((i + 1, ArgsErrorKind::ExpectedEquals))
            } else if word == "command"@ {
                match token_at(tokens, i + 2) {
                    Some(TokenView::Str(name)) => Ok((ArgView::Command(name), i + 3)),
                    Some(TokenView::Punct('#')) => Err((i + 2, ArgsErrorKind::AttributeNotAllowed)),
                    _ => Err((i + 2, ArgsErrorKind::ExpectedStringLiteral)),
                }
            } else {
                match token_at(tokens, i + 2) {
                    Some(TokenView::Open(Delimiter::Bracket)) => match list_from(
                        tokens,
                        i + 3,
                        Seq::empty(),
                    ) {
                        Ok((names, next)) => Ok((ArgView::Commands(names), next)),
                        Err(flaw) => Err(flaw),
                    },
                    Some(TokenView::Punct('#')) => Err((i + 2, ArgsErrorKind::AttributeNotAllowed)),
                    _ => Err((i + 2, ArgsErrorKind::ExpectedArray)),
                }
            }
        },
        _ => Err((i, ArgsErrorKind::ExpectedIdentifier)),
    }
}

/// Reads options up to the end, from position `i` on: `seen` with the
/// options added, or what is wrong.
pub open spec fn options_from(tokens: Seq<TokenView>, i: int, seen: Seq<ArgView>) -> Result<
    Seq<ArgView>,
    Flaw,
>
    decreases tokens.len() - i,
{
    if token_at(tokens, i) is None {
        Ok(seen)
    } else {
        match option_at(tokens, i) {
            Err(flaw) => Err(flaw),
            Ok((arg, next)) => match token_at(tokens, next) {
                None => Ok(seen.push(arg)),
                Some(TokenView::Punct(',')) => {
                    proof {
                        lemma_option_advances(tokens, i);
                    }
                    options_from(tokens, next + 1, seen.push(arg))
                },
                Some(_) => Err((next, ArgsErrorKind::ExpectedComma)),
            },
        }
    }
}

/// The options that a list of tokens denotes, or what is wrong with it.
pub open spec fn parsed_args(tokens: Seq<TokenView>) -> Result<Seq<ArgView>, Flaw> {
    options_from(tokens, 0, Seq::empty())
}

/// A list of names that is read ends after the position at which it starts.
pub proof fn lemma_list_advances(tokens: Seq<TokenView>, i: int, seen: Seq<Seq<char>>)
    ensures
        list_from(tokens, i, seen) matches Ok((_, next)) ==> i < next <= tokens.len(),
    decreases tokens.len() - i,
{
    match token_at(tokens, i) {
        Some(TokenView::Str(name)) => {
            if token_at(tokens, i + 1) == Some(TokenView::Punct(',')) {
                lemma_list_advances(tokens, i + 2, seen.push(name));
            }
        },
        _ => {},
    }
}

/// An option that is read ends after the position at which it starts.
pub proof fn lemma_option_advances(tokens: Seq<TokenView>, i: int)
    ensures
        option_at(tokens, i) matches Ok((_, next)) ==> i < next <= tokens.len(),
{
    lemma_list_advances(tokens, i + 3, Seq::empty());
}

/// The names of a list as they are written: one string literal for each,
/// with commas between them.
pub open spec fn names_tokens(names: Seq<Seq<char>>) -> Seq<TokenView>
    decreases names.len(),
{
    if names.len() == 0 {
        Seq::empty()
    } else if names.len() == 1 {
        seq![TokenView::Str(names[0])]
    } else {
        seq![TokenView::Str(names[0]), TokenView::Punct(',')] + names_tokens(names.drop_first())
    }
}

/// An option as it is written.
pub open spec fn arg_tokens(arg: ArgView) -> Seq<TokenView> {
    match arg {
        ArgView::Command(name) => seq![
            TokenView::Ident("command"@),
            TokenView::Punct('='),
            TokenView::Str(name),
        ],
        ArgView::Commands(names) => seq![
            TokenView::Ident("commands"@),
            TokenView::Punct('='),
            TokenView::Open(Delimiter::Bracket),
        ] + names_tokens(names) + seq![TokenView::Close(Delimiter::Bracket)],
    }
}

/// A list of options as it is written, with commas between the options.
pub open spec fn args_tokens(args: Seq<ArgView>) -> Seq<TokenView>
    decreases args.len(),
{
    if args.len() == 0 {
        Seq::empty()
    } else if args.len() == 1 {
        arg_tokens(args[0])
    } else {
        arg_tokens(args[0]) + seq![TokenView::Punct(',')] + args_tokens(args.drop_first())
    }
}

/// Whether `tokens` holds `part` from position `i` on.
pub open spec fn holds_at(tokens: Seq<TokenView>, i: int, part: Seq<TokenView>) -> bool {
    &&& 0 <= i
    &&& i + part.len() <= tokens.len()
    &&& forall|k: int| 0 <= k < part.len() ==> tokens[i + k] == #[trigger] part[k]
}

proof fn lemma_list_of_written_names(
    tokens: Seq<TokenView>,
    i: int,
    seen: Seq<Seq<char>>,
    names: Seq<Seq<char>>,
)
    requires
        holds_at(tokens, i, names_tokens(names) + seq![TokenView::Close(Delimiter::Bracket)]),
    ensures
        list_from(tokens, i, seen) == Ok::<(Seq<Seq<char>>, int), Flaw>(
            (seen + names, i + names_tokens(names).len() + 1),
        ),
    decreases names.len(),
{
    let close = seq![TokenView::Close(Delimiter::Bracket)];
    let part = names_tokens(names) + close;
    if names.len() == 0 {
        assert(tokens[i + 0] == part[0]);
        assert(seen + names == seen);
    } else if names.len() == 1 {
        assert(tokens[i + 0] == part[0]);
        assert(tokens[i + 1] == part[1]);
        assert(seen + names == seen.push(names[0]));
    } else {
        let rest = names.drop_first();
        let rest_part = names_tokens(rest) + close;
        assert(tokens[i + 0] == part[0]);
        assert(tokens[i + 1] == part[1]);
        assert forall|k: int| 0 <= k < rest_part.len() implies tokens[i + 2 + k]
            == #[trigger] rest_part[k] by {
            assert(tokens[i + (k + 2)] == part[k + 2]);
        }
        lemma_list_of_written_names(tokens, i + 2, seen.push(names[0]), rest);
        assert(seen.push(names[0]) + rest == seen + names);
    }
}

proof fn lemma_option_as_written(tokens: Seq<TokenView>, i: int, arg: ArgView)
    requires
        holds_at(tokens, i, arg_tokens(arg)),
    ensures
        option_at(tokens, i) == Ok::<(ArgView, int), Flaw>((arg, i + arg_tokens(arg).len())),
{
    let part = arg_tokens(arg);
    reveal_strlit("command");
    reveal_strlit("commands");
    assert("command"@.len() != "commands"@.len());
    assert(tokens[i + 0] == part[0]);
    assert(tokens[i + 1] == part[1]);
    assert(tokens[i + 2] == part[2]);
    match arg {
        ArgView::Command(name) => {},
        ArgView::Commands(names) => {
            let close = seq![TokenView::Close(Delimiter::Bracket)];
            let list = names_tokens(names) + close;
            assert forall|k: int| 0 <= k < list.len() implies tokens[i + 3 + k]
                == #[trigger] list[k] by {
                assert(tokens[i + (k + 3)] == part[k + 3]);
            }
            lemma_list_of_written_names(tokens, i + 3, Seq::empty(), names);
            assert(Seq::<Seq<char>>::empty() + names == names);
        },
    }
}

proof fn lemma_options_as_written(
    tokens: Seq<TokenView>,
    i: int,
    seen: Seq<ArgView>,
    args: Seq<ArgView>,
)
    requires
        0 <= i <= tokens.len(),
        tokens.skip(i) == args_tokens(args),
    ensures
        options_from(tokens, i, seen) == Ok::<Seq<ArgView>, Flaw>(seen + args),
    decreases args.len(),
{
    let written = args_tokens(args);
    assert(tokens.skip(i).len() == tokens.len() - i);
    if args.len() == 0 {
        assert(seen + args == seen);
    } else {
        let first = arg_tokens(args[0]);
        let rest = args.drop_first();
        let comma = seq![TokenView::Punct(',')];
        assert(first.len() >= 3);
        assert(written == if args.len() == 1 {
            first
        } else {
            first + comma + args_tokens(rest)
        });
        assert forall|k: int| 0 <= k < first.len() implies tokens[i + k] == #[trigger] first[k] by {
            assert(tokens.skip(i)[k] == written[k]);
        }
        lemma_option_as_written(tokens, i, args[0]);
        let next = i + first.len();
        if args.len() == 1 {
            assert(seen + args == seen.push(args[0]));
        } else {
            assert(tokens.skip(i)[first.len() as int] == written[first.len() as int]);
            assert(tokens[next] == TokenView::Punct(','));
            assert(tokens.skip(next + 1) == args_tokens(rest)) by {
                assert(tokens.skip(next + 1).len() == args_tokens(rest).len());
                assert forall|k: int| 0 <= k < args_tokens(rest).len() implies tokens.skip(
                    next + 1,
                )[k] == args_tokens(rest)[k] by {
                    assert(tokens.skip(i)[first.len() + 1 + k] == written[first.len() + 1 + k]);
                }
            }
            lemma_options_as_written(tokens, next + 1, seen.push(args[0]), rest);
            assert(seen.push(args[0]) + rest == seen + args);
        }
    }
}

/// Options that are written down as the grammar says are read back as they
/// were.
pub proof fn lemma_written_args_are_read_back(args: Seq<ArgView>)
    ensures
        parsed_args(args_tokens(args)) == Ok::<Seq<ArgView>, Flaw>(args),
{
    let tokens = args_tokens(args);
    assert(tokens.skip(0) == tokens);
    lemma_options_as_written(tokens, 0, Seq::empty(), args);
    assert(Seq::<ArgView>::empty() + args == args);
}

impl ArgsErrorKind {
    /// The message of the error.
    pub fn message(&self) -> (r: &'static str)
        ensures
            r@ == match *self {
                ArgsErrorKind::ExpectedIdentifier => "expected identifier"@,
                ArgsErrorKind::UnknownOption => "unknown ruma_bot option"@,
                ArgsErrorKind::ExpectedEquals => "expected `=`"@,
                ArgsErrorKind::ExpectedStringLiteral => "expected string literal"@,
                ArgsErrorKind::ExpectedArray => "expected square brackets"@,
                ArgsErrorKind::AttributeNotAllowed => "attributes are not allowed here"@,
                ArgsErrorKind::ExpectedComma => "expected `,`"@,
                ArgsErrorKind::UnclosedList => "expected `]`"@,
            },
    {
        match self {
            ArgsErrorKind::ExpectedIdentifier => "expected identifier",
            ArgsErrorKind::UnknownOption => "unknown ruma_bot option",
            ArgsErrorKind::ExpectedEquals => "expected `=`",
            ArgsErrorKind::ExpectedStringLiteral => "expected string literal",
            ArgsErrorKind::ExpectedArray => "expected square brackets",
            ArgsErrorKind::AttributeNotAllowed => "attributes are not allowed here",
            ArgsErrorKind::ExpectedComma => "expected `,`",
            ArgsErrorKind::UnclosedList => "expected `]`",
        }
    }
}

/// Whether the token at position `i` is the punctuation character `c`.
fn is_punct(tokens: &Vec<Token>, i: usize, c: char) -> (r: bool)
    ensures
        r == (token_at(tokens.deep_view(), i as int) == Some(TokenView::Punct(c))),
{
    if i >= tokens.len() {
        return false;
    }
    match &tokens[i] {
        Token::Punct(found) => *found == c,
        _ => false,
    }
}

/// Whether the token at position `i` closes a group in square brackets.
fn is_closing_bracket(tokens: &Vec<Token>, i: usize) -> (r: bool)
    ensures
        r == (token_at(tokens.deep_view(), i as int) == Some(
            TokenView::Close(Delimiter::Bracket),
        )),
{
    if i >= tokens.len() {
        return false;
    }
    match &tokens[i] {
        Token::Close(delimiter) => *delimiter == Delimiter::Bracket,
        _ => false,
    }
}

/// Whether the token at position `i` opens a group in square brackets.
fn is_opening_bracket(tokens: &Vec<Token>, i: usize) -> (r: bool)
    ensures
        r == (token_at(tokens.deep_view(), i as int) == Some(
            TokenView::Open(Delimiter::Bracket),
        )),
{
    if i >= tokens.len() {
        return false;
    }
    match &tokens[i] {
        Token::Open(delimiter) => *delimiter == Delimiter::Bracket,
        _ => false,
    }
}

/// The text of the string literal at position `i`, if one stands there.
fn string_at(tokens: &Vec<Token>, i: usize) -> (r: Option<&String>)
    ensures
        match r {
            Some(text) => token_at(tokens.deep_view(), i as int) == Some(TokenView::Str(text@)),
            None => !(token_at(tokens.deep_view(), i as int) matches Some(TokenView::Str(_))),
        },
{
    if i >= tokens.len() {
        return None;
    }
    match &tokens[i] {
        Token::Str(text) => Some(text),
        _ => None,
    }
}

/// Reads the names of a list up to its closing bracket; `start` is the
/// position after the opening bracket.
fn parse_list(tokens: &Vec<Token>, start: usize) -> (r: Result<(Vec<String>, usize), ArgsError>)
    requires
        start <= tokens.len(),
    ensures
        match r {
            Ok((names, next)) => list_from(tokens.deep_view(), start as int, Seq::empty()) == Ok::<
                (Seq<Seq<char>>, int),
                Flaw,
            >((names.deep_view(), next as int)),
            Err(e) => list_from(tokens.deep_view(), start as int, Seq::empty()) == Err::<
                (Seq<Seq<char>>, int),
                Flaw,
            >((e.at as int, e.kind)),
        },
{
    let ghost views = tokens.deep_view();
    let ghost whole = list_from(views, start as int, Seq::empty());
    let mut names: Vec<String> = Vec::new();
    let mut i: usize = start;
    assert(names.deep_view() == Seq::<Seq<char>>::empty());
    loop
        invariant
            i <= tokens.len(),
            views == tokens.deep_view(),
            whole == list_from(views, start as int, Seq::empty()),
            list_from(views, i as int, names.deep_view()) == whole,
        decreases tokens.len() - i,
    {
        if i >= tokens.len() {
            return Err(ArgsError { at: i, kind: ArgsErrorKind::UnclosedList });
        }
        if is_closing_bracket(tokens, i) {
            return Ok((names, i + 1));
        }
        match string_at(tokens, i) {
            Some(name) => {
                let ghost before = names.deep_view();
                if i + 1 >= tokens.len() {
                    return Err(ArgsError { at: i + 1, kind: ArgsErrorKind::UnclosedList });
                }
                if is_punct(tokens, i + 1, ',') {
                    names.push(name.clone());
                    assert(names.deep_view() == before.push(name@));
                    i = i + 2;
                } else if is_closing_bracket(tokens, i + 1) {
                    names.push(name.clone());
                    assert(names.deep_view() == before.push(name@));
                    return Ok((names, i + 2));
                } else {
                    return Err(ArgsError { at: i + 1, kind: ArgsErrorKind::ExpectedComma });
                }
            },
            None => {
                if is_punct(tokens, i, '#') {
                    return Err(ArgsError { at: i, kind: ArgsErrorKind::AttributeNotAllowed });
                }
                return Err(ArgsError { at: i, kind: ArgsErrorKind::ExpectedStringLiteral });
            },
        }
    }
}

impl Arg {
    /// Reads the option that starts at position `at`, and tells where it
    /// ends.
    pub fn parse(tokens: &Vec<Token>, at: usize) -> (r: Result<(Arg, usize), ArgsError>)
        ensures
            match r {
                Ok((arg, next)) => option_at(tokens.deep_view(), at as int) == Ok::<
                    (ArgView, int),
                    Flaw,
                >((arg.deep_view(), next as int)),
                Err(e) => option_at(tokens.deep_view(), at as int) == Err::<(ArgView, int), Flaw>(
                    (e.at as int, e.kind),
                ),
            },
    {
        if at >= tokens.len() {
            return Err(ArgsError { at, kind: ArgsErrorKind::ExpectedIdentifier });
        }
        let word = match &tokens[at] {
            Token::Ident(word) => word,
            _ => {
                return Err(ArgsError { at, kind: ArgsErrorKind::ExpectedIdentifier });
            },
        };
        let single = *word == "command".to_owned();
        let several = *word == "commands".to_owned();
        if !single && !several {
            return Err(ArgsError { at, kind: ArgsErrorKind::UnknownOption });
        }
        if !is_punct(tokens, at + 1, '=') {
            return Err(ArgsError { at: at + 1, kind: ArgsErrorKind::ExpectedEquals });
        }
        if single {
            match string_at(tokens, at + 2) {
                Some(name) => Ok((Arg::Command(name.clone()), at + 3)),
                None => {
                    if is_punct(tokens, at + 2, '#') {
                        Err(ArgsError { at: at + 2, kind: ArgsErrorKind::AttributeNotAllowed })
                    } else {
                        Err(ArgsError { at: at + 2, kind: ArgsErrorKind::ExpectedStringLiteral })
                    }
                },
            }
        } else if is_opening_bracket(tokens, at + 2) {
            match parse_list(tokens, at + 3) {
                Ok((names, next)) => Ok((Arg::Commands(names), next)),
                Err(e) => Err(e),
            }
        } else if is_punct(tokens, at + 2, '#') {
            Err(ArgsError { at: at + 2, kind: ArgsErrorKind::AttributeNotAllowed })
        } else {
            Err(ArgsError { at: at + 2, kind: ArgsErrorKind::ExpectedArray })
        }
    }
}

impl Args {
    /// Reads a list of options.
    pub fn parse(tokens: &Vec<Token>) -> (r: Result<Args, ArgsError>)
        ensures
            match r {
                Ok(args) => parsed_args(tokens.deep_view()) == Ok::<Seq<ArgView>, Flaw>(
                    args.deep_view(),
                ),
                Err(e) => parsed_args(tokens.deep_view()) == Err::<Seq<ArgView>, Flaw>(
                    (e.at as int, e.kind),
                ),
            },
    {
        let ghost views = tokens.deep_view();
        let mut args: Vec<Arg> = Vec::new();
        let mut i: usize = 0;
        assert(args.deep_view() == Seq::<ArgView>::empty());
        loop
            invariant
                i <= tokens.len(),
                views == tokens.deep_view(),
                options_from(views, i as int, args.deep_view()) == parsed_args(views),
            decreases tokens.len() - i,
        {
            if i >= tokens.len() {
                return Ok(Args(args));
            }
            proof {
                lemma_option_advances(views, i as int);
            }
            let (arg, next) = match Arg::parse(tokens, i) {
                Ok(found) => found,
                Err(e) => {
                    return Err(e);
                },
            };
            let ghost before = args.deep_view();
            let ghost added = arg.deep_view();
            args.push(arg);
            assert(args.deep_view() == before.push(added));
            if next >= tokens.len() {
                return Ok(Args(args));
            }
            if !is_punct(tokens, next, ',') {
                return Err(ArgsError { at: next, kind: ArgsErrorKind::ExpectedComma });
            }
            i = next + 1;
        }
    }
}

} // verus!
