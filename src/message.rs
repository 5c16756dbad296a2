//! The parts of an incoming chat message that command parsing reads.
use vstd::prelude::*;

verus! {

/// A signed integer as the messaging API transmits it.
pub type Integer = i64;

/// Where an entity stands in a text, in UTF-16 code units.
#[derive(Clone, Copy, Debug, PartialEq, Eq)]
pub struct TextEntityPosition {
    pub offset: u32,
    pub length: u32,
}

/// A bot command marked in a text: its name with the leading slash, and the
/// bot it is addressed to, where it names one (`/start@mybot`).
#[derive(Clone, Debug, PartialEq, Eq)]
pub struct BotCommand {
    pub command: String,
    pub bot_name: Option<String>,
    pub position: TextEntityPosition,
}

/// A special span of a text.
#[derive(Clone, Debug, PartialEq, Eq)]
pub enum TextEntity {
    Bold(TextEntityPosition),
    BotCommand(BotCommand),
    Code(TextEntityPosition),
    Hashtag(TextEntityPosition),
    Italic(TextEntityPosition),
    Mention(TextEntityPosition),
    Strikethrough(TextEntityPosition),
    Underline(TextEntityPosition),
    Url(TextEntityPosition),
}

/// A list of text entities.
pub type TextEntities = Vec<TextEntity>;

/// The text of a message together with its entities, in their order.
#[derive(Clone, Debug, PartialEq, Eq)]
pub struct Text {
    pub data: String,
    pub entities: TextEntities,
}

/// An incoming message.
#[derive(Clone, Debug, PartialEq, Eq)]
pub struct Message {
    pub id: Integer,
    pub text: Option<Text>,
}

/// The first bot command among the entities, in list order.
pub open spec fn first_bot_command(es: Seq<TextEntity>) -> Option<BotCommand>
    decreases es.len(),
{
    if es.len() == 0 {
        None
    } else if let TextEntity::BotCommand(c) = es[0] {
        Some(c)
    } else {
        first_bot_command(es.skip(1))
    }
}

/// A list of entities with no bot command among them has no first bot
/// command.
pub proof fn lemma_no_bot_command(es: Seq<TextEntity>)
    requires
        forall|i: int| 0 <= i < es.len() ==> !(#[trigger] es[i] is BotCommand),
    ensures
        first_bot_command(es) is None,
    decreases es.len(),
{
    if es.len() > 0 {
        assert forall|i: int| 0 <= i < es.skip(1).len() implies !(
        #[trigger] es.skip(1)[i] is BotCommand) by {
            assert(es.skip(1)[i] == es[i + 1]);
        }
        lemma_no_bot_command(es.skip(1));
    }
}

/// The bot command that comes first in list order is the one taken,
/// whatever the entities after it hold.
pub proof fn lemma_first_listed_command_wins(es: Seq<TextEntity>, i: int)
    requires
        0 <= i < es.len(),
        es[i] is BotCommand,
        forall|j: int| 0 <= j < i ==> !(#[trigger] es[j] is BotCommand),
    ensures
        first_bot_command(es) == Some(es[i]->BotCommand_0),
    decreases i,
{
    if i > 0 {
        assert forall|j: int| 0 <= j < i - 1 implies !(#[trigger] es.skip(1)[j] is BotCommand) by {
            assert(es.skip(1)[j] == es[j + 1]);
        }
        assert(es.skip(1)[i - 1] == es[i]);
        lemma_first_listed_command_wins(es.skip(1), i - 1);
    }
}

impl Text {
    /// The first bot command among the entities, in list order.
    pub fn first_bot_command(&self) -> (r: Option<&BotCommand>)
        ensures
            match first_bot_command(self.entities@) {
                Some(c) => r matches Some(b) && *b == c,
                None => r is None,
            },
    {
        let mut i: usize = 0;
        proof {
            assert(self.entities@.skip(0) =~= self.entities@);
        }
        while i < self.entities.len()
            invariant
                i <= self.entities@.len(),
                first_bot_command(self.entities@) == first_bot_command(
                    self.entities@.skip(i as int),
                ),
            decreases self.entities@.len() - i,
        {
            proof {
                assert(self.entities@.skip(i as int).skip(1) =~= self.entities@.skip(i + 1));
            }
            if let TextEntity::BotCommand(c) = &self.entities[i] {
                return Some(c);
            }
            i = i + 1;
        }
        None
    }
}

impl Message {
    /// The text of the message, where it has one.
    pub fn get_text(&self) -> (r: Option<&Text>)
        ensures
            match self.text {
                Some(t) => r matches Some(x) && *x == t,
                None => r is None,
            },
    {
        match &self.text {
            Some(t) => Some(t),
            None => None,
        }
    }
}

} // verus!
