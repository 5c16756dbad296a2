//! A command read from a message: the first bot command of its text and the
//! whitespace-separated words after it.
use vstd::math::min;
use vstd::prelude::*;

use crate::message::{first_bot_command, BotCommand, Message};
use crate::text::{find, find_chars, occurs_at, split_whitespace, strings_view, words};
use crate::utf16::{
    char_units, chars_of, decode, decode_utf16_from, encode, encode_utf16, lemma_encode_concat,
    lemma_skip_units_round_trip, utf16_len, utf16_len_of_prefix, Utf16Error,
};

verus! {

/// A command taken from a message.
///
/// Only the first bot command of the message counts; the text after it is
/// split at whitespace into arguments.
#[derive(Clone, Debug, PartialEq, Eq)]
pub struct Command {
    name: String,
    args: Vec<String>,
    message: Message,
}

/// Why no command could be read from a message.
#[derive(Clone, Copy, Debug, PartialEq, Eq)]
pub enum CommandError {
    /// The message has no text, or its text no bot command.
    NotFound,
    /// The text after the command is not valid UTF-16 once the command's
    /// code units are skipped.
    Utf16(Utf16Error),
}

impl CommandError {
    /// A sentence that says what went wrong.
    pub fn to_string(&self) -> (r: String)
        ensures
            *self is NotFound ==> r@ == "failed to parse command: not found"@,
            *self is Utf16 ==> r@ == "failed to parse command: invalid utf-16: lone surrogate found"@,
    {
        match self {
            CommandError::NotFound => "failed to parse command: not found".to_owned(),
            CommandError::Utf16(_) => "failed to parse command: invalid utf-16: lone surrogate found".to_owned(),
        }
    }
}

/// The UTF-16 offset where the name of `cmd` first occurs in `text`, or
/// zero where it does not occur.
pub open spec fn name_offset(text: Seq<char>, cmd: BotCommand) -> int {
    match find(text, cmd.command@) {
        Some(i) => utf16_len(text.take(i)) as int,
        None => 0,
    }
}

/// The UTF-16 length of the bot name of `cmd` and of the `@` before it, or
/// zero where the command names no bot.
pub open spec fn suffix_len(cmd: BotCommand) -> int {
    match cmd.bot_name {
        Some(b) => utf16_len(b@) + 1int,
        None => 0,
    }
}

/// The UTF-16 offset at which the arguments of `cmd` start in `text`.
pub open spec fn command_end(text: Seq<char>, cmd: BotCommand) -> int {
    name_offset(text, cmd) + utf16_len(cmd.command@) + suffix_len(cmd)
}

/// The text after the command: the code units of `text` past
/// `command_end`, decoded.
pub open spec fn arguments_text(text: Seq<char>, cmd: BotCommand) -> Result<Seq<char>, nat> {
    decode(encode(text).skip(min(command_end(text, cmd), encode(text).len() as int)))
}

/// The text of a command written alone, with its bot name where it has one.
pub open spec fn written_alone(cmd: BotCommand) -> Seq<char> {
    match cmd.bot_name {
        Some(b) => cmd.command@ + seq!['@'] + b@,
        None => cmd.command@,
    }
}

proof fn lemma_written_alone_len(cmd: BotCommand)
    ensures
        utf16_len(written_alone(cmd)) == utf16_len(cmd.command@) + suffix_len(cmd),
{
    if cmd.bot_name is Some {
        let name = cmd.command@;
        let b = cmd.bot_name->0@;
        let at = seq!['@'];
        lemma_encode_concat(name + at, b);
        lemma_encode_concat(name, at);
        assert(at.drop_last() =~= Seq::<char>::empty());
        assert(encode(at.drop_last()) == Seq::<u16>::empty());
        assert(encode(at) =~= char_units('@'));
        assert(utf16_len(at) == 1);
    }
}

/// Where the command, with its bot name if any, is written at its first
/// occurrence in the text, the arguments are read from exactly the
/// characters after it, whatever the UTF-16 width of the characters before.
pub proof fn lemma_arguments_follow_command(text: Seq<char>, cmd: BotCommand, k: int)
    requires
        0 <= k,
        find(text, cmd.command@) == Some(k),
        k + written_alone(cmd).len() <= text.len(),
        text.subrange(k, k + written_alone(cmd).len()) == written_alone(cmd),
    ensures
        arguments_text(text, cmd) == Ok::<Seq<char>, nat>(text.skip(k + written_alone(cmd).len())),
{
    let w = written_alone(cmd);
    let m = k + w.len();
    lemma_written_alone_len(cmd);
    assert(text.take(m) =~= text.take(k) + w);
    lemma_encode_concat(text.take(k), w);
    assert(text =~= text.take(m) + text.skip(m));
    lemma_encode_concat(text.take(m), text.skip(m));
    assert(command_end(text, cmd) == utf16_len(text.take(m)));
    lemma_skip_units_round_trip(text, m);
}

/// A text that holds nothing but the command has no arguments.
pub proof fn lemma_command_alone_has_no_args(cmd: BotCommand)
    ensures
        arguments_text(written_alone(cmd), cmd) == Ok::<Seq<char>, nat>(Seq::empty()),
        words(Seq::empty()) == Seq::<Seq<char>>::empty(),
{
    let text = written_alone(cmd);
    let name = cmd.command@;
    assert(text.subrange(0, name.len() as int) =~= name);
    assert(occurs_at(text, name, 0));
    assert(find(text, name) == Some(0int));
    assert(text.subrange(0, text.len() as int) =~= text);
    lemma_arguments_follow_command(text, cmd, 0);
    assert(text.skip(text.len() as int) =~= Seq::<char>::empty());
}

impl Command {
    /// The name of the command, with its leading slash.
    pub closed spec fn spec_name(&self) -> Seq<char> {
        self.name@
    }

    /// The arguments of the command.
    pub closed spec fn spec_args(&self) -> Seq<Seq<char>> {
        strings_view(self.args@)
    }

    /// The message the command was read from.
    pub closed spec fn spec_message(&self) -> Message {
        self.message
    }

    /// Reads the command of a message.
    ///
    /// Fails with `NotFound` where the message has no text or no bot command;
    /// otherwise the name is that of the first bot command, and the arguments
    /// are the words of `arguments_text`, or the decoding error it gives.
    pub fn parse(message: Message) -> (r: Result<Command, CommandError>)
        ensures
            match message.text {
                None => r == Err::<Command, CommandError>(CommandError::NotFound),
                Some(t) => match first_bot_command(t.entities@) {
                    None => r == Err::<Command, CommandError>(CommandError::NotFound),
                    Some(cmd) => match arguments_text(t.data@, cmd) {
                        Ok(rest) => r matches Ok(c) && c.spec_name() == cmd.command@
                            && c.spec_args() == words(rest) && c.spec_message() == message,
                        Err(i) => r == Err::<Command, CommandError>(
                            CommandError::Utf16(Utf16Error { position: i as usize }),
                        ),
                    },
                },
            },
    {
        let (name, raw_args) = match message.get_text() {
            None => return Err(CommandError::NotFound),
            Some(text) => match text.first_bot_command() {
                None => return Err(CommandError::NotFound),
                Some(cmd) => {
                    let name = cmd.command.clone();
                    let data = text.data.as_str();
                    let text_chars = chars_of(data);
                    let name_chars = chars_of(name.as_str());
                    let offset: usize = match find_chars(&text_chars, &name_chars) {
                        Some(i) => utf16_len_of_prefix(&text_chars, i),
                        None => 0,
                    };
                    let name_len = utf16_len_of_prefix(&name_chars, name_chars.len());
                    let suffix: usize = match &cmd.bot_name {
                        Some(b) => {
                            let bot_chars = chars_of(b.as_str());
                            utf16_len_of_prefix(&bot_chars, bot_chars.len()).saturating_add(1)
                        },
                        None => 0,
                    };
                    let end = offset.saturating_add(name_len).saturating_add(suffix);
                    let units = encode_utf16(data);
                    let unit_count: usize = units.len();
                    proof {
                        assert(units@.len() == unit_count);
                        assert(name_chars@.take(name_chars@.len() as int) =~= name_chars@);
                        assert(offset as int == min(name_offset(text.data@, *cmd), usize::MAX as int));
                        assert(name_len as int == min(utf16_len(cmd.command@) as int, usize::MAX as int));
                        assert(suffix as int == min(suffix_len(*cmd), usize::MAX as int)) by {
                            if cmd.bot_name is Some {
                                let bot_chars = cmd.bot_name->0@;
                                assert(bot_chars.take(bot_chars.len() as int) =~= bot_chars);
                            }
                        }
                        assert(end as int == min(command_end(text.data@, *cmd), usize::MAX as int));
                        assert(min(end as int, units@.len() as int) == min(
                            command_end(text.data@, *cmd),
                            units@.len() as int,
                        ));
                    }
                    match decode_utf16_from(units.as_slice(), end) {
                        Ok(rest) => (name, rest),
                        Err(e) => return Err(CommandError::Utf16(e)),
                    }
                },
            },
        };
        let args = split_whitespace(raw_args.as_str());
        Ok(Command { name, args, message })
    }

    /// The name of the command, with its leading slash.
    pub fn get_name(&self) -> (r: &str)
        ensures
            r@ == self.spec_name(),
    {
        self.name.as_str()
    }

    /// The arguments of the command, in order.
    pub fn get_args(&self) -> (r: &[String])
        ensures
            strings_view(r@) == self.spec_args(),
    {
        self.args.as_slice()
    }

    /// The message the command was read from.
    pub fn get_message(&self) -> (r: &Message)
        ensures
            *r == self.spec_message(),
    {
        &self.message
    }
}

} // verus!
