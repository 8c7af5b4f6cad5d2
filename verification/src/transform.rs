//! The rename policies: what a member's new name is, given the current one.

use regex::Regex;
use vstd::prelude::*;
use vstd::string::StringExecFns;
use crate::fraction::{Fraction, FractionView};
use crate::jitter::{jitter_draws, jitter_with, spec_jitter};
use crate::jumble::{jumble_draws, jumble_with, spec_jumble};
use crate::pattern::{pattern_compiles, refusal_text, regex_replaced, replace_matches};
use crate::replace::{replace, spec_replace};
use crate::text::chars_of;

verus! {

/// A rename policy.
#[derive(Debug)]
pub enum Transform {
    /// The text, then the name.
    Prepend(String),
    /// The name, then the text.
    Append(String),
    /// The text, whatever the name.
    SetTo(String),
    /// The empty name.
    Reset,
    /// The name with `new` in the place of every occurrence of `old`.
    Replace { old: String, new: String },
    /// The name with `new` in the place of every match of the regular
    /// expression `pattern`.
    ReplaceRegex { pattern: String, new: String },
    /// The characters of the name, scattered with this intensity.
    Jitter(Fraction),
    /// The name with each character of this set replaced by another of it.
    Jumble(String),
}

/// What a [`Transform`] stands for in contracts.
pub enum TransformView {
    Prepend(Seq<char>),
    Append(Seq<char>),
    SetTo(Seq<char>),
    Reset,
    Replace { old: Seq<char>, new: Seq<char> },
    ReplaceRegex { pattern: Seq<char>, new: Seq<char> },
    Jitter(FractionView),
    Jumble(Seq<char>),
}

impl View for Transform {
    type V = TransformView;

    open spec fn view(&self) -> TransformView {
        match self {
            Transform::Prepend(text) => TransformView::Prepend(text@),
            Transform::Append(text) => TransformView::Append(text@),
            Transform::SetTo(text) => TransformView::SetTo(text@),
            Transform::Reset => TransformView::Reset,
            Transform::Replace { old, new } => TransformView::Replace { old: old@, new: new@ },
            Transform::ReplaceRegex { pattern, new } => TransformView::ReplaceRegex {
                pattern: pattern@,
                new: new@,
            },
            Transform::Jitter(intensity) => TransformView::Jitter(intensity@),
            Transform::Jumble(charset) => TransformView::Jumble(charset@),
        }
    }
}

/// Why the arguments of a command are no rename policy.
#[derive(Debug)]
pub enum TransformError {
    /// A set of fewer than two characters cannot be jumbled.
    CharsetTooShort,
    /// The pattern is no regular expression; the text says why.
    InvalidPattern(String),
    /// The intensity is no percentage between zero and one hundred.
    MalformedPercentage,
}

/// The kind of a [`TransformError`], without its text.
#[derive(Clone, Copy, Debug, PartialEq, Eq, Structural)]
pub enum ErrorKind {
    CharsetTooShort,
    InvalidPattern,
    MalformedPercentage,
}

impl TransformError {
    /// The kind of the error.
    pub open spec fn spec_kind(&self) -> ErrorKind {
        match self {
            TransformError::CharsetTooShort => ErrorKind::CharsetTooShort,
            TransformError::InvalidPattern(_) => ErrorKind::InvalidPattern,
            TransformError::MalformedPercentage => ErrorKind::MalformedPercentage,
        }
    }

    /// The kind of the error.
    pub fn kind(&self) -> (out: ErrorKind)
        ensures
            out == self.spec_kind(),
    {
        match self {
            TransformError::CharsetTooShort => ErrorKind::CharsetTooShort,
            TransformError::InvalidPattern(_) => ErrorKind::InvalidPattern,
            TransformError::MalformedPercentage => ErrorKind::MalformedPercentage,
        }
    }

    /// The message for the person who gave the command.
    pub open spec fn spec_message(&self) -> Seq<char> {
        match self {
            TransformError::CharsetTooShort => "You must have at least two characters!"@,
            TransformError::InvalidPattern(text) => text@,
            TransformError::MalformedPercentage => "Percentage couldn't be parsed!"@,
        }
    }

    /// The message for the person who gave the command.
    pub fn message(&self) -> (out: String)
        ensures
            out@ == self.spec_message(),
    {
        match self {
            TransformError::CharsetTooShort => "You must have at least two characters!".to_owned(),
            TransformError::InvalidPattern(text) => text.clone(),
            TransformError::MalformedPercentage => "Percentage couldn't be parsed!".to_owned(),
        }
    }
}

impl TransformView {
    /// Whether the policy can be applied: a set to jumble holds at least two
    /// characters, an intensity lies between zero and one, and a pattern is
    /// a regular expression.
    pub open spec fn wf(self) -> bool {
        match self {
            TransformView::ReplaceRegex { pattern, new } => pattern_compiles(pattern),
            TransformView::Jitter(intensity) => intensity.wf(),
            TransformView::Jumble(charset) => charset.len() >= 2,
            _ => true,
        }
    }

    /// Whether the new name depends on what is drawn.
    pub open spec fn is_random(self) -> bool {
        self is Jitter || self is Jumble
    }

    /// Whether `draws` are draws as the policy asks for them for `name`.
    pub open spec fn draws_fit(self, name: Seq<char>, draws: Seq<usize>) -> bool {
        match self {
            TransformView::Jitter(_) => crate::jitter::draws_fit(name.len(), draws),
            TransformView::Jumble(charset) => crate::jumble::draws_fit(charset, draws),
            _ => true,
        }
    }

    /// The new name for `name`, with `draws` drawn.
    pub open spec fn apply(self, name: Seq<char>, draws: Seq<usize>) -> Seq<char> {
        match self {
            TransformView::Prepend(text) => text + name,
            TransformView::Append(text) => name + text,
            TransformView::SetTo(text) => text,
            TransformView::Reset => Seq::empty(),
            TransformView::Replace { old, new } => spec_replace(name, old, new),
            TransformView::ReplaceRegex { pattern, new } => regex_replaced(pattern, name, new),
            TransformView::Jitter(intensity) => spec_jitter(name, intensity, draws),
            TransformView::Jumble(charset) => spec_jumble(name, charset, draws),
        }
    }
}

/// A policy that draws nothing gives the same name whatever is handed to it
/// as draws: applied again to the same name, it gives the same result.
pub proof fn lemma_apply_without_draws(
    transform: TransformView,
    name: Seq<char>,
    a: Seq<usize>,
    b: Seq<usize>,
)
    requires
        !transform.is_random(),
    ensures
        transform.apply(name, a) == transform.apply(name, b),
{
}

impl Transform {
    /// Whether the policy can be applied.
    pub open spec fn wf(&self) -> bool {
        self@.wf()
    }

    /// The policy that puts `text` before the name.
    pub fn prepend(text: &str) -> (out: Transform)
        ensures
            out.wf(),
            out@ == TransformView::Prepend(text@),
    {
        Transform::Prepend(text.to_owned())
    }

    /// The policy that puts `text` behind the name.
    pub fn append(text: &str) -> (out: Transform)
        ensures
            out.wf(),
            out@ == TransformView::Append(text@),
    {
        Transform::Append(text.to_owned())
    }

    /// The policy that names everyone `text`.
    pub fn set(text: &str) -> (out: Transform)
        ensures
            out.wf(),
            out@ == TransformView::SetTo(text@),
    {
        Transform::SetTo(text.to_owned())
    }

    /// The policy that takes every name away.
    pub fn reset() -> (out: Transform)
        ensures
            out.wf(),
            out@ == TransformView::Reset,
    {
        Transform::Reset
    }

    /// The policy that replaces every occurrence of `old` by `new`.
    pub fn replace(old: &str, new: &str) -> (out: Transform)
        ensures
            out.wf(),
            out@ == (TransformView::Replace { old: old@, new: new@ }),
    {
        Transform::Replace { old: old.to_owned(), new: new.to_owned() }
    }

    /// The policy that replaces every match of the regular expression
    /// `pattern` by `new`; refused where `pattern` is none.
    pub fn replace_regex(pattern: &str, new: &str) -> (out: Result<Transform, TransformError>)
        ensures
            out is Ok == pattern_compiles(pattern@),
            out matches Ok(transform) ==> transform.wf() && transform@ == (
            TransformView::ReplaceRegex { pattern: pattern@, new: new@ }),
            out matches Err(error) ==> error.spec_kind() == ErrorKind::InvalidPattern,
    {
        match Regex::new(pattern) {
            Ok(_) => Ok(
                Transform::ReplaceRegex { pattern: pattern.to_owned(), new: new.to_owned() },
            ),
            Err(error) => Err(TransformError::InvalidPattern(refusal_text(&error))),
        }
    }

    /// The policy that scatters the characters of a name with the intensity
    /// that `percentage` spells; refused where it spells none.
    pub fn jitter(percentage: &str) -> (out: Result<Transform, TransformError>)
        ensures
            match out {
                Ok(transform) => transform.wf() && transform@ is Jitter && Some(transform@->Jitter_0)
                    == crate::fraction::spec_parse_percent(percentage@),
                Err(error) => crate::fraction::spec_parse_percent(percentage@) is None
                    && error.spec_kind() == ErrorKind::MalformedPercentage,
            },
    {
        match Fraction::parse_percent(percentage) {
            Some(intensity) => Ok(Transform::Jitter(intensity)),
            None => Err(TransformError::MalformedPercentage),
        }
    }

    /// The policy that jumbles the characters of `charset`; refused where
    /// `charset` holds fewer than two characters.
    pub fn jumble(charset: &str) -> (out: Result<Transform, TransformError>)
        ensures
            out is Ok == (charset@.len() >= 2),
            out matches Ok(transform) ==> transform.wf() && transform@ == TransformView::Jumble(
                charset@,
            ),
            out matches Err(error) ==> error.spec_kind() == ErrorKind::CharsetTooShort,
    {
        let chars = chars_of(charset);
        if chars.len() >= 2 {
            Ok(Transform::Jumble(charset.to_owned()))
        } else {
            Err(TransformError::CharsetTooShort)
        }
    }

    /// Whether the new name depends on what is drawn.
    pub fn is_random(&self) -> (out: bool)
        ensures
            out == self@.is_random(),
    {
        match self {
            Transform::Jitter(_) => true,
            Transform::Jumble(_) => true,
            _ => false,
        }
    }

    /// Whether the policy can be applied.
    pub fn is_valid(&self) -> (out: bool)
        ensures
            out == self.wf(),
    {
        match self {
            Transform::ReplaceRegex { pattern, new } => Regex::new(pattern.as_str()).is_ok(),
            Transform::Jitter(intensity) => intensity.den() > 0 && intensity.num()
                <= intensity.den(),
            Transform::Jumble(charset) => chars_of(charset.as_str()).len() >= 2,
            _ => true,
        }
    }

    /// The new name for `name`, with `draws` in the place of random draws. A
    /// policy that draws nothing pays no heed to them.
    pub fn apply_with(&self, name: &str, draws: &Vec<usize>) -> (out: String)
        requires
            self.wf(),
            self@.draws_fit(name@, draws@),
        ensures
            out@ == self@.apply(name@, draws@),
    {
        match self {
            Transform::Prepend(text) => {
                let mut out = text.clone();
                out.append(name);
                out
            },
            Transform::Append(text) => {
                let mut out = name.to_owned();
                out.append(text.as_str());
                out
            },
            Transform::SetTo(text) => text.clone(),
            Transform::Reset => String::new(),
            Transform::Replace { old, new } => replace(name, old.as_str(), new.as_str()),
            Transform::ReplaceRegex { pattern, new } => {
                match replace_matches(pattern.as_str(), name, new.as_str()) {
                    Some(replaced) => replaced,
                    None => name.to_owned(),
                }
            },
            Transform::Jitter(intensity) => jitter_with(name, intensity, draws),
            Transform::Jumble(charset) => jumble_with(name, charset.as_str(), draws),
        }
    }

    /// The new name for `name`. Where the policy draws, the result is what
    /// `apply_with` gives for some draws that fit; where it does not, it is
    /// what `apply_with` gives for any.
    pub fn apply(&self, name: &str) -> (out: String)
        requires
            self.wf(),
        ensures
            exists|draws: Seq<usize>|
                self@.draws_fit(name@, draws) && out@ == #[trigger] self@.apply(name@, draws),
            !self@.is_random() ==> out@ == self@.apply(name@, Seq::empty()),
    {
        let draws: Vec<usize> = match self {
            Transform::Jitter(_) => {
                let mut rng = rand::thread_rng();
                jitter_draws(&mut rng, chars_of(name).len())
            },
            Transform::Jumble(charset) => {
                let mut rng = rand::thread_rng();
                jumble_draws(&mut rng, charset.as_str())
            },
            _ => Vec::new(),
        };
        let out = self.apply_with(name, &draws);
        proof {
            if !self@.is_random() {
                lemma_apply_without_draws(self@, name@, draws@, Seq::empty());
            }
        }
        out
    }

    /// The new name for `name`, or nothing where the policy cannot be applied.
    pub fn rename(&self, name: &str) -> (out: Option<String>)
        ensures
            out is Some == self.wf(),
            out matches Some(renamed) ==> exists|draws: Seq<usize>|
                self@.draws_fit(name@, draws) && renamed@ == #[trigger] self@.apply(name@, draws),
            out matches Some(renamed) ==> !self@.is_random() ==> renamed@ == self@.apply(
                name@,
                Seq::empty(),
            ),
    {
        if self.is_valid() {
            Some(self.apply(name))
        } else {
            None
        }
    }
}

} // verus!
