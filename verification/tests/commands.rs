use nicky::command::{Argument, CommandError, CommandKind};
use nicky::selector::{Selector, SelectorError, Token};
use nicky::transform::{ErrorKind, Transform};

fn words(list: &[&str]) -> Vec<String> {
    list.iter().map(|w| w.to_string()).collect()
}

fn missing(kind: CommandKind, list: &[&str]) -> Argument {
    match kind.parse(&words(list)) {
        Err(CommandError::Missing(argument)) => argument,
        _ => panic!("an argument is missing"),
    }
}

fn refused(kind: CommandKind, list: &[&str]) -> ErrorKind {
    match kind.parse(&words(list)) {
        Err(CommandError::Policy(error)) => error.kind(),
        _ => panic!("the policy is refused"),
    }
}

#[test]
fn prepend_takes_a_text_and_a_selector() {
    let command = CommandKind::Prepend.parse(&words(&["[Mod] ", "Mod"])).expect("a command");
    assert!(matches!(&command.transform, Transform::Prepend(text) if text == "[Mod] "));
    match &command.selector {
        Selector::Include(tokens) => {
            assert_eq!(tokens.len(), 1);
            assert!(matches!(&tokens[0], Token::Name(name) if name == "Mod"));
        }
        _ => panic!("a bare word is included"),
    }
    assert_eq!(command.transform.rename("Ada"), Some("[Mod] Ada".to_string()));
}

#[test]
fn a_command_without_selector_words_targets_everyone() {
    let command = CommandKind::Append.parse(&words(&["!"])).expect("a command");
    assert!(matches!(&command.transform, Transform::Append(text) if text == "!"));
    assert!(matches!(command.selector, Selector::Everyone));
    let command = CommandKind::Reset.parse(&Vec::new()).expect("a command");
    assert!(matches!(command.transform, Transform::Reset));
    assert!(matches!(command.selector, Selector::Everyone));
}

#[test]
fn reset_takes_no_argument() {
    let command = CommandKind::Reset.parse(&words(&["--", "<@1>"])).expect("a command");
    assert!(matches!(command.transform, Transform::Reset));
    match &command.selector {
        Selector::Exclude(tokens) => assert!(matches!(tokens[0], Token::Id(1))),
        _ => panic!("the words behind the separator are excluded"),
    }
}

#[test]
fn set_and_replace_take_their_texts() {
    let command = CommandKind::SetTo.parse(&words(&["Guest", "7"])).expect("a command");
    assert!(matches!(&command.transform, Transform::SetTo(text) if text == "Guest"));
    assert!(matches!(&command.selector, Selector::Include(tokens) if tokens.len() == 1));
    let command = CommandKind::Replace.parse(&words(&["a", "b", "--", "7"])).expect("a command");
    assert!(
        matches!(&command.transform, Transform::Replace { old, new } if old == "a" && new == "b")
    );
    assert!(matches!(&command.selector, Selector::Exclude(tokens) if tokens.len() == 1));
    let command = CommandKind::ReplaceRegex.parse(&words(&["a+", "X"])).expect("a command");
    assert_eq!(command.transform.rename("banaaana"), Some("bXnXnX".to_string()));
    assert!(matches!(command.selector, Selector::Everyone));
}

#[test]
fn jitter_and_jumble_take_their_argument() {
    let command = CommandKind::Jitter.parse(&words(&["0%", "Mod"])).expect("a command");
    assert_eq!(command.transform.rename("Ada Lovelace"), Some("Ada Lovelace".to_string()));
    let command = CommandKind::Jumble.parse(&words(&["ab"])).expect("a command");
    assert_eq!(command.transform.rename("abc"), Some("aac".to_string()));
}

#[test]
fn missing_arguments_are_named() {
    assert_eq!(missing(CommandKind::Prepend, &[]), Argument::Prefix);
    assert_eq!(missing(CommandKind::Append, &[]), Argument::Affix);
    assert_eq!(missing(CommandKind::SetTo, &[]), Argument::Nickname);
    assert_eq!(missing(CommandKind::Replace, &[]), Argument::OldValue);
    assert_eq!(missing(CommandKind::Replace, &["a"]), Argument::NewValue);
    assert_eq!(missing(CommandKind::ReplaceRegex, &[]), Argument::Pattern);
    assert_eq!(missing(CommandKind::ReplaceRegex, &["a+"]), Argument::NewValue);
    assert_eq!(missing(CommandKind::Jitter, &[]), Argument::Intensity);
    assert_eq!(missing(CommandKind::Jumble, &[]), Argument::Characters);
}

#[test]
fn the_messages_of_missing_arguments() {
    assert_eq!(Argument::Prefix.message(), "No prefix found!");
    assert_eq!(Argument::Affix.message(), "No affix found!");
    assert_eq!(Argument::Nickname.message(), "No nickname found!");
    assert_eq!(Argument::OldValue.message(), "No old value found!");
    assert_eq!(Argument::NewValue.message(), "No new value found!");
    assert_eq!(Argument::Pattern.message(), "No regex found!");
    assert_eq!(Argument::Intensity.message(), "No intensity found!");
    assert_eq!(Argument::Characters.message(), "No characters found!");
    assert_eq!(CommandError::Missing(Argument::Prefix).message(), "No prefix found!");
}

#[test]
fn a_refused_argument_stops_the_command() {
    assert_eq!(refused(CommandKind::Jumble, &["a", "Mod"]), ErrorKind::CharsetTooShort);
    assert_eq!(refused(CommandKind::Jumble, &["", "Mod"]), ErrorKind::CharsetTooShort);
    assert_eq!(refused(CommandKind::Jitter, &["lots", "Mod"]), ErrorKind::MalformedPercentage);
    assert_eq!(refused(CommandKind::Jitter, &["150%"]), ErrorKind::MalformedPercentage);
    assert_eq!(refused(CommandKind::ReplaceRegex, &["foo(bar", "X"]), ErrorKind::InvalidPattern);
}

#[test]
fn a_bad_pattern_is_reported_before_a_missing_replacement() {
    assert_eq!(refused(CommandKind::ReplaceRegex, &["foo(bar"]), ErrorKind::InvalidPattern);
}

#[test]
fn a_lone_separator_behind_the_arguments_is_refused() {
    match CommandKind::Prepend.parse(&words(&["x", "--"])) {
        Err(CommandError::Selection(error)) => {
            assert_eq!(error, SelectorError::NothingToExclude);
            assert_eq!(
                CommandError::Selection(error).message(),
                "When using --, please specify users to exclude."
            );
        }
        _ => panic!("a lone separator is refused"),
    }
    // A separator in the place of an argument is the argument.
    let command = CommandKind::Prepend.parse(&words(&["--"])).expect("a command");
    assert!(matches!(&command.transform, Transform::Prepend(text) if text == "--"));
}

#[test]
fn arities_and_arguments() {
    assert_eq!(CommandKind::Reset.arity(), 0);
    assert_eq!(CommandKind::Prepend.arity(), 1);
    assert_eq!(CommandKind::Append.arity(), 1);
    assert_eq!(CommandKind::SetTo.arity(), 1);
    assert_eq!(CommandKind::Jitter.arity(), 1);
    assert_eq!(CommandKind::Jumble.arity(), 1);
    assert_eq!(CommandKind::Replace.arity(), 2);
    assert_eq!(CommandKind::ReplaceRegex.arity(), 2);
    assert_eq!(CommandKind::Replace.argument(0), Argument::OldValue);
    assert_eq!(CommandKind::Replace.argument(1), Argument::NewValue);
    assert_eq!(CommandKind::ReplaceRegex.argument(0), Argument::Pattern);
}
