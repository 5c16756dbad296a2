use tgbot::command::{Command, CommandError};
use tgbot::message::{BotCommand, Message, Text, TextEntity, TextEntityPosition};
use tgbot::utf16::Utf16Error;

fn position(offset: u32, length: u32) -> TextEntityPosition {
    TextEntityPosition { offset, length }
}

fn bot_command(name: &str, bot_name: Option<&str>, offset: u32, length: u32) -> TextEntity {
    TextEntity::BotCommand(BotCommand {
        command: name.to_string(),
        bot_name: bot_name.map(|b| b.to_string()),
        position: position(offset, length),
    })
}

fn message(data: &str, entities: Vec<TextEntity>) -> Message {
    Message {
        id: 1,
        text: Some(Text {
            data: data.to_string(),
            entities,
        }),
    }
}

fn args_of(command: &Command) -> Vec<&str> {
    command.get_args().iter().map(|a| a.as_str()).collect()
}

#[test]
fn message_without_text_is_not_a_command() {
    let msg = Message { id: 7, text: None };
    assert_eq!(Command::parse(msg), Err(CommandError::NotFound));
}

#[test]
fn text_without_entities_is_not_a_command() {
    let msg = message("/start hello", vec![]);
    assert_eq!(Command::parse(msg), Err(CommandError::NotFound));
}

#[test]
fn text_with_other_entities_is_not_a_command() {
    let msg = message(
        "hello world",
        vec![
            TextEntity::Bold(position(0, 5)),
            TextEntity::Url(position(6, 5)),
        ],
    );
    assert_eq!(Command::parse(msg), Err(CommandError::NotFound));
}

#[test]
fn command_with_two_arguments() {
    let msg = message("/start hello world", vec![bot_command("/start", None, 0, 6)]);
    let command = Command::parse(msg.clone()).unwrap();
    assert_eq!(command.get_name(), "/start");
    assert_eq!(args_of(&command), vec!["hello", "world"]);
    assert_eq!(command.get_message(), &msg);
}

#[test]
fn bot_name_is_left_out_of_name_and_arguments() {
    let msg = message(
        "/start@mybot arg1",
        vec![bot_command("/start", Some("mybot"), 0, 12)],
    );
    let command = Command::parse(msg).unwrap();
    assert_eq!(command.get_name(), "/start");
    assert_eq!(args_of(&command), vec!["arg1"]);
}

#[test]
fn command_alone_has_no_arguments() {
    let msg = message("/ping", vec![bot_command("/ping", None, 0, 5)]);
    let command = Command::parse(msg).unwrap();
    assert_eq!(command.get_name(), "/ping");
    assert!(command.get_args().is_empty());
}

#[test]
fn command_with_bot_name_alone_has_no_arguments() {
    let msg = message("/ping@bot", vec![bot_command("/ping", Some("bot"), 0, 9)]);
    let command = Command::parse(msg).unwrap();
    assert!(command.get_args().is_empty());
}

#[test]
fn trailing_whitespace_gives_no_empty_argument() {
    let msg = message("/ping   \t ", vec![bot_command("/ping", None, 0, 5)]);
    let command = Command::parse(msg).unwrap();
    assert!(command.get_args().is_empty());
}

#[test]
fn surrogate_pairs_before_the_command_keep_the_boundary() {
    // two emoji (two code units each) and an accented letter (one unit)
    let msg = message(
        "\u{1F600}\u{1F680} \u{e9} /run fast now",
        vec![bot_command("/run", None, 7, 4)],
    );
    let command = Command::parse(msg).unwrap();
    assert_eq!(command.get_name(), "/run");
    assert_eq!(args_of(&command), vec!["fast", "now"]);
}

#[test]
fn surrogate_pairs_in_arguments_are_kept() {
    let msg = message(
        "/say \u{1F600}x y\u{1F680}",
        vec![bot_command("/say", None, 0, 4)],
    );
    let command = Command::parse(msg).unwrap();
    assert_eq!(args_of(&command), vec!["\u{1F600}x", "y\u{1F680}"]);
}

#[test]
fn first_listed_command_wins_over_an_earlier_one_in_the_text() {
    let msg = message(
        "/second x /first y",
        vec![
            bot_command("/first", None, 10, 6),
            bot_command("/second", None, 0, 7),
        ],
    );
    let command = Command::parse(msg).unwrap();
    assert_eq!(command.get_name(), "/first");
    assert_eq!(args_of(&command), vec!["y"]);
}

#[test]
fn first_command_follows_other_entities() {
    let msg = message(
        "hi /go a",
        vec![
            TextEntity::Italic(position(0, 2)),
            bot_command("/go", None, 3, 3),
        ],
    );
    let command = Command::parse(msg).unwrap();
    assert_eq!(command.get_name(), "/go");
    assert_eq!(args_of(&command), vec!["a"]);
}

#[test]
fn name_missing_from_text_counts_from_the_start() {
    let msg = message("abcdef gh", vec![bot_command("/x", None, 0, 2)]);
    let command = Command::parse(msg).unwrap();
    assert_eq!(command.get_name(), "/x");
    assert_eq!(args_of(&command), vec!["cdef", "gh"]);
}

#[test]
fn end_inside_a_surrogate_pair_is_a_decoding_error() {
    // the empty bot name moves the end one unit past "/a", into the pair
    let msg = message("/a\u{1F600}x", vec![bot_command("/a", Some(""), 0, 3)]);
    assert_eq!(
        Command::parse(msg),
        Err(CommandError::Utf16(Utf16Error { position: 0 }))
    );
}

#[test]
fn error_sentences() {
    assert_eq!(
        CommandError::NotFound.to_string(),
        "failed to parse command: not found"
    );
    assert_eq!(
        CommandError::Utf16(Utf16Error { position: 0 }).to_string(),
        "failed to parse command: invalid utf-16: lone surrogate found"
    );
}

#[test]
fn text_accessors() {
    let msg = message("/a", vec![TextEntity::Code(position(0, 1)), bot_command("/a", None, 0, 2)]);
    let text = msg.get_text().unwrap();
    assert_eq!(text.first_bot_command().unwrap().command, "/a");
    assert!(Message { id: 2, text: None }.get_text().is_none());
}
