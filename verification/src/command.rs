//! A rename command: the words behind its name spell a policy and a selector.
//!
//! The first words are the arguments of the policy; the words behind them
//! select the members. Whatever is wrong with the words is found before any
//! member is touched.

use vstd::prelude::*;
use crate::fraction::spec_parse_percent;
use crate::pattern::pattern_compiles;
use crate::selector::{spec_selector, word_views, Selector, SelectorError, SelectorView};
use crate::transform::{ErrorKind, Transform, TransformError, TransformView};

verus! {

/// The rename commands.
#[derive(Clone, Copy, Debug, PartialEq, Eq, Structural)]
pub enum CommandKind {
    Prepend,
    Append,
    SetTo,
    Reset,
    Replace,
    ReplaceRegex,
    Jitter,
    Jumble,
}

/// An argument that a command asks for.
#[derive(Clone, Copy, Debug, PartialEq, Eq, Structural)]
pub enum Argument {
    Prefix,
    Affix,
    Nickname,
    OldValue,
    NewValue,
    Pattern,
    Intensity,
    Characters,
}

/// Why the words of a command cannot be carried out.
#[derive(Debug)]
pub enum CommandError {
    /// The words end before this argument.
    Missing(Argument),
    /// The arguments are no rename policy.
    Policy(TransformError),
    /// The words behind the arguments are no selector.
    Selection(SelectorError),
}

/// What a [`CommandError`] stands for in contracts.
pub enum CommandErrorView {
    Missing(Argument),
    Policy(ErrorKind),
    Selection(SelectorError),
}

impl View for CommandError {
    type V = CommandErrorView;

    open spec fn view(&self) -> CommandErrorView {
        match self {
            CommandError::Missing(argument) => CommandErrorView::Missing(*argument),
            CommandError::Policy(error) => CommandErrorView::Policy(error.spec_kind()),
            CommandError::Selection(error) => CommandErrorView::Selection(*error),
        }
    }
}

impl Argument {
    /// The message for the person who left the argument out.
    pub open spec fn spec_message(&self) -> Seq<char> {
        match self {
            Argument::Prefix => "No prefix found!"@,
            Argument::Affix => "No affix found!"@,
            Argument::Nickname => "No nickname found!"@,
            Argument::OldValue => "No old value found!"@,
            Argument::NewValue => "No new value found!"@,
            Argument::Pattern => "No regex found!"@,
            Argument::Intensity => "No intensity found!"@,
            Argument::Characters => "No characters found!"@,
        }
    }

    /// The message for the person who left the argument out.
    pub fn message(&self) -> (out: String)
        ensures
            out@ == self.spec_message(),
    {
        match self {
            Argument::Prefix => "No prefix found!".to_owned(),
            Argument::Affix => "No affix found!".to_owned(),
            Argument::Nickname => "No nickname found!".to_owned(),
            Argument::OldValue => "No old value found!".to_owned(),
            Argument::NewValue => "No new value found!".to_owned(),
            Argument::Pattern => "No regex found!".to_owned(),
            Argument::Intensity => "No intensity found!".to_owned(),
            Argument::Characters => "No characters found!".to_owned(),
        }
    }
}

impl CommandError {
    /// The message for the person who gave the command.
    pub open spec fn spec_message(&self) -> Seq<char> {
        match self {
            CommandError::Missing(argument) => argument.spec_message(),
            CommandError::Policy(error) => error.spec_message(),
            CommandError::Selection(error) => error.spec_message(),
        }
    }

    /// The message for the person who gave the command.
    pub fn message(&self) -> (out: String)
        ensures
            out@ == self.spec_message(),
    {
        match self {
            CommandError::Missing(argument) => argument.message(),
            CommandError::Policy(error) => error.message(),
            CommandError::Selection(error) => error.message(),
        }
    }
}

/// A rename command, ready to be carried out.
#[derive(Debug)]
pub struct Command {
    pub transform: Transform,
    pub selector: Selector,
}

/// What a [`Command`] stands for in contracts.
pub struct CommandView {
    pub transform: TransformView,
    pub selector: SelectorView,
}

impl View for Command {
    type V = CommandView;

    open spec fn view(&self) -> CommandView {
        CommandView { transform: self.transform@, selector: self.selector@ }
    }
}

impl CommandKind {
    /// How many arguments the command takes before its selector.
    pub open spec fn spec_arity(self) -> nat {
        match self {
            CommandKind::Reset => 0,
            CommandKind::Replace | CommandKind::ReplaceRegex => 2,
            _ => 1,
        }
    }

    /// The argument at position `i`.
    pub open spec fn spec_argument(self, i: nat) -> Argument {
        match self {
            CommandKind::Prepend => Argument::Prefix,
            CommandKind::Append => Argument::Affix,
            CommandKind::SetTo => Argument::Nickname,
            CommandKind::Reset => Argument::Nickname,
            CommandKind::Replace => if i == 0 {
                Argument::OldValue
            } else {
                Argument::NewValue
            },
            CommandKind::ReplaceRegex => if i == 0 {
                Argument::Pattern
            } else {
                Argument::NewValue
            },
            CommandKind::Jitter => Argument::Intensity,
            CommandKind::Jumble => Argument::Characters,
        }
    }

    /// What is wrong with the first argument taken alone, if anything: a
    /// pattern that is no regular expression, an intensity that is no
    /// percentage, a set of fewer than two characters.
    pub open spec fn spec_refusal(self, first: Seq<char>) -> Option<ErrorKind> {
        match self {
            CommandKind::ReplaceRegex => if pattern_compiles(first) {
                None
            } else {
                Some(ErrorKind::InvalidPattern)
            },
            CommandKind::Jitter => if spec_parse_percent(first) is Some {
                None
            } else {
                Some(ErrorKind::MalformedPercentage)
            },
            CommandKind::Jumble => if first.len() >= 2 {
                None
            } else {
                Some(ErrorKind::CharsetTooShort)
            },
            _ => None,
        }
    }

    /// The policy that the arguments spell, where nothing is wrong with them.
    pub open spec fn spec_transform(self, arguments: Seq<Seq<char>>) -> TransformView {
        match self {
            CommandKind::Prepend => TransformView::Prepend(arguments[0]),
            CommandKind::Append => TransformView::Append(arguments[0]),
            CommandKind::SetTo => TransformView::SetTo(arguments[0]),
            CommandKind::Reset => TransformView::Reset,
            CommandKind::Replace => TransformView::Replace {
                old: arguments[0],
                new: arguments[1],
            },
            CommandKind::ReplaceRegex => TransformView::ReplaceRegex {
                pattern: arguments[0],
                new: arguments[1],
            },
            CommandKind::Jitter => TransformView::Jitter(spec_parse_percent(arguments[0])->Some_0),
            CommandKind::Jumble => TransformView::Jumble(arguments[0]),
        }
    }

    /// The command that `words` spell, or the first thing wrong with them:
    /// a missing first argument, then a first argument that is refused, then
    /// a missing second argument, then words that are no selector.
    pub open spec fn spec_command(self, words: Seq<Seq<char>>) -> Result<
        CommandView,
        CommandErrorView,
    > {
        if self.spec_arity() >= 1 && words.len() == 0 {
            Err(CommandErrorView::Missing(self.spec_argument(0)))
        } else if self.spec_arity() >= 1 && self.spec_refusal(words[0]) is Some {
            Err(CommandErrorView::Policy(self.spec_refusal(words[0])->Some_0))
        } else if self.spec_arity() >= 2 && words.len() == 1 {
            Err(CommandErrorView::Missing(self.spec_argument(1)))
        } else {
            match spec_selector(words.skip(self.spec_arity() as int)) {
                Err(error) => Err(CommandErrorView::Selection(error)),
                Ok(selector) => Ok(
                    CommandView { transform: self.spec_transform(words), selector: selector },
                ),
            }
        }
    }

    /// How many arguments the command takes before its selector.
    pub fn arity(&self) -> (out: usize)
        ensures
            out == self.spec_arity(),
    {
        match self {
            CommandKind::Reset => 0,
            CommandKind::Replace => 2,
            CommandKind::ReplaceRegex => 2,
            _ => 1,
        }
    }

    /// The argument at position `i`.
    pub fn argument(&self, i: usize) -> (out: Argument)
        ensures
            out == self.spec_argument(i as nat),
    {
        match self {
            CommandKind::Prepend => Argument::Prefix,
            CommandKind::Append => Argument::Affix,
            CommandKind::SetTo => Argument::Nickname,
            CommandKind::Reset => Argument::Nickname,
            CommandKind::Replace => if i == 0 {
                Argument::OldValue
            } else {
                Argument::NewValue
            },
            CommandKind::ReplaceRegex => if i == 0 {
                Argument::Pattern
            } else {
                Argument::NewValue
            },
            CommandKind::Jitter => Argument::Intensity,
            CommandKind::Jumble => Argument::Characters,
        }
    }

    /// Checks the first argument taken alone: the policy of a command with
    /// one argument, or the refusal of the argument.
    fn first_check(&self, first: &str) -> (out: Result<Option<Transform>, TransformError>)
        requires
            self.spec_arity() >= 1,
        ensures
            match out {
                Err(error) => self.spec_refusal(first@) == Some(error.spec_kind()),
                Ok(found) => {
                    &&& self.spec_refusal(first@) is None
                    &&& found is Some == (self.spec_arity() == 1)
                    &&& found matches Some(transform) ==> transform.wf() && transform@
                        == self.spec_transform(seq![first@])
                },
            },
    {
        match self {
            CommandKind::Prepend => Ok(Some(Transform::prepend(first))),
            CommandKind::Append => Ok(Some(Transform::append(first))),
            CommandKind::SetTo => Ok(Some(Transform::set(first))),
            CommandKind::Reset => Ok(None),
            CommandKind::Replace => Ok(None),
            CommandKind::ReplaceRegex => match Transform::replace_regex(first, "") {
                Ok(_) => Ok(None),
                Err(error) => Err(error),
            },
            CommandKind::Jitter => match Transform::jitter(first) {
                Ok(transform) => Ok(Some(transform)),
                Err(error) => Err(error),
            },
            CommandKind::Jumble => match Transform::jumble(first) {
                Ok(transform) => Ok(Some(transform)),
                Err(error) => Err(error),
            },
        }
    }

    /// The command that `words` spell: the policy of the first words and
    /// the selector of the others.
    pub fn parse(&self, words: &Vec<String>) -> (out: Result<Command, CommandError>)
        ensures
            match out {
                Ok(command) => command.transform.wf() && self.spec_command(word_views(words@))
                    == Ok::<CommandView, CommandErrorView>(command@),
                Err(error) => self.spec_command(word_views(words@)) == Err::<
                    CommandView,
                    CommandErrorView,
                >(error@),
            },
    {
        let ghost texts = word_views(words@);
        let arity: usize = self.arity();
        let mut found: Option<Transform> = None;
        if arity >= 1 {
            if words.len() == 0 {
                return Err(CommandError::Missing(self.argument(0)));
            }
            assert(texts[0] == words@[0]@);
            match self.first_check(words[0].as_str()) {
                Err(error) => {
                    return Err(CommandError::Policy(error));
                },
                Ok(checked) => {
                    found = checked;
                },
            }
            if arity >= 2 && words.len() == 1 {
                return Err(CommandError::Missing(self.argument(1)));
            }
        }
        let transform: Transform = match found {
            Some(transform) => transform,
            None => match self {
                CommandKind::Replace => {
                    assert(texts[1] == words@[1]@);
                    Transform::replace(words[0].as_str(), words[1].as_str())
                },
                CommandKind::ReplaceRegex => {
                    assert(texts[1] == words@[1]@);
                    Transform::ReplaceRegex { pattern: words[0].clone(), new: words[1].clone() }
                },
                _ => Transform::reset(),
            },
        };
        let rest = words_from(words, arity);
        match Selector::parse(&rest) {
            Err(error) => Err(CommandError::Selection(error)),
            Ok(selector) => Ok(Command { transform, selector }),
        }
    }
}

/// The words from position `from` on.
fn words_from(words: &Vec<String>, from: usize) -> (out: Vec<String>)
    requires
        from <= words.len(),
    ensures
        word_views(out@) == word_views(words@).skip(from as int),
{
    let mut out: Vec<String> = Vec::new();
    let mut i: usize = from;
    while i < words.len()
        invariant
            from <= i <= words.len(),
            out.len() == i - from,
            forall|k: int| 0 <= k < out.len() ==> (#[trigger] out@[k])@ == words@[from + k]@,
        decreases words.len() - i,
    {
        out.push(words[i].clone());
        i += 1;
    }
    assert(word_views(out@) =~= word_views(words@).skip(from as int));
    out
}

} // verus!
