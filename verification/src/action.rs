//! What is to be done with the selected files.

use crate::text::{ascii_lowercase, ascii_lowercase_of, chars_of, reads, trim, trim_of};
use vstd::prelude::*;

verus! {

/// The two actions of the context menu.
#[derive(Clone, Copy, Debug, Eq, PartialEq, Structural)]
pub enum BridgeAction {
    Unlock,
    Delete,
}

/// The word that stands for `action` in a request file.
pub open spec fn action_word(action: BridgeAction) -> Seq<char> {
    match action {
        BridgeAction::Unlock => "unlock"@,
        BridgeAction::Delete => "delete"@,
    }
}

/// The action that `value` names, whatever the case of its letters and the white space round it.
pub open spec fn action_named(value: Seq<char>) -> Option<BridgeAction> {
    let word = ascii_lowercase_of(trim_of(value));
    if word == "unlock"@ {
        Some(BridgeAction::Unlock)
    } else if word == "delete"@ {
        Some(BridgeAction::Delete)
    } else {
        None
    }
}

/// The action of the menu command with the offset `id`.
pub open spec fn action_of_command(id: int) -> Option<BridgeAction> {
    if id == 0 {
        Some(BridgeAction::Unlock)
    } else if id == 1 {
        Some(BridgeAction::Delete)
    } else {
        None
    }
}

/// The number by which the driver knows `action`.
pub open spec fn operation_code_of(action: BridgeAction) -> u32 {
    match action {
        BridgeAction::Unlock => 0,
        BridgeAction::Delete => 1,
    }
}

impl BridgeAction {
    /// The action of the menu command with the offset `id`.
    pub fn from_command_id(id: usize) -> (r: Option<Self>)
        ensures
            r == action_of_command(id as int),
    {
        match id {
            0 => Some(BridgeAction::Unlock),
            1 => Some(BridgeAction::Delete),
            _ => None,
        }
    }

    /// The word that stands for the action in a request file.
    pub fn as_config_value(self) -> (r: &'static str)
        ensures
            r@ == action_word(self),
    {
        match self {
            BridgeAction::Unlock => "unlock",
            BridgeAction::Delete => "delete",
        }
    }

    /// The action that `value` names.
    pub fn from_config_value(value: &str) -> (r: Option<Self>)
        ensures
            r == action_named(value@),
    {
        let chars: Vec<char> = chars_of(value);
        Self::from_config_chars(chars.as_slice())
    }

    /// The action that the characters `value` name.
    pub fn from_config_chars(value: &[char]) -> (r: Option<Self>)
        ensures
            r == action_named(value@),
    {
        let word: Vec<char> = ascii_lowercase(trim(value));
        if reads(word.as_slice(), "unlock") {
            Some(BridgeAction::Unlock)
        } else if reads(word.as_slice(), "delete") {
            Some(BridgeAction::Delete)
        } else {
            None
        }
    }

    /// The number by which the driver knows the action.
    pub fn operation_code(self) -> (r: u32)
        ensures
            r == operation_code_of(self),
    {
        match self {
            BridgeAction::Unlock => 0,
            BridgeAction::Delete => 1,
        }
    }

    /// The switch by which the command line of IObit Unlocker knows the action.
    pub fn cli_switch(self) -> (r: &'static str)
        ensures
            r@ == match self {
                BridgeAction::Unlock => "/None"@,
                BridgeAction::Delete => "/Delete"@,
            },
    {
        match self {
            BridgeAction::Unlock => "/None",
            BridgeAction::Delete => "/Delete",
        }
    }
}

/// The word of an action names that action.
pub proof fn action_word_reads_back(action: BridgeAction)
    ensures
        action_named(action_word(action)) == Some(action),
{
    reveal_strlit("unlock");
    reveal_strlit("delete");
    let word = action_word(action);
    assert(trim_of(word) == word);
    assert(ascii_lowercase_of(word) == word);
    assert("unlock"@[0] != "delete"@[0]);
}

/// An action is named by its own word, in small or capital letters and with white space round it or
/// not, and by nothing else.
pub proof fn actions_are_named_by_their_words(value: Seq<char>)
    ensures
        ({
            let word = ascii_lowercase_of(trim_of(value));
            &&& action_named(value) == Some(BridgeAction::Unlock) <==> word == seq![
                'u',
                'n',
                'l',
                'o',
                'c',
                'k',
            ]
            &&& action_named(value) == Some(BridgeAction::Delete) <==> word == seq![
                'd',
                'e',
                'l',
                'e',
                't',
                'e',
            ]
        }),
{
    reveal_strlit("unlock");
    reveal_strlit("delete");
    assert("unlock"@ == seq!['u', 'n', 'l', 'o', 'c', 'k']);
    assert("delete"@ == seq!['d', 'e', 'l', 'e', 't', 'e']);
    assert("unlock"@[0] != "delete"@[0]);
}

/// The menu and the driver know the actions by the same two numbers, and no other number stands for
/// one.
pub proof fn actions_have_one_number(id: int, action: BridgeAction)
    ensures
        action_of_command(id) == Some(action) <==> id == operation_code_of(action),
        operation_code_of(BridgeAction::Unlock) == 0,
        operation_code_of(BridgeAction::Delete) == 1,
        action_of_command(id) is Some <==> 0 <= id <= 1,
{
}

} // verus!
