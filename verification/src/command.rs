use vstd::prelude::*;

verus! {

/// Mathematical image of a command.
#[verifier::ext_equal]
pub ghost enum CommandView {
    Register { name: Seq<char> },
    SelectCard { card_id: Seq<char> },
    ChoosePlayer,
    Play { card_id: Seq<char>, x: u8, y: u8 },
    Check { x: u8, y: u8 },
}

/// A command handed to the rules engine by the driver.  Commands that
/// do not fit the current phase are silently ignored.
#[derive(Debug)]
pub enum Command {
    /// Register a player under the given name.
    Register { name: String },
    /// Draft the card with the given identity token from the deck.
    SelectCard { card_id: String },
    /// Reserved for future use; currently always a no-op.
    ChoosePlayer,
    /// Place the card with the given identity token at (x, y).
    Play { card_id: String, x: u8, y: u8 },
    /// Query a board position; handled outside the engine.
    Check { x: u8, y: u8 },
}

impl Clone for Command {
    fn clone(&self) -> (res: Command)
        ensures
            res.deep_view() == self.deep_view(),
    {
        match self {
            Command::Register { name } => Command::Register { name: name.clone() },
            Command::SelectCard { card_id } => Command::SelectCard { card_id: card_id.clone() },
            Command::ChoosePlayer => Command::ChoosePlayer,
            Command::Play { card_id, x, y } => Command::Play {
                card_id: card_id.clone(),
                x: *x,
                y: *y,
            },
            Command::Check { x, y } => Command::Check { x: *x, y: *y },
        }
    }
}

impl DeepView for Command {
    type V = CommandView;

    open spec fn deep_view(&self) -> CommandView {
        match self {
            Command::Register { name } => CommandView::Register { name: name@ },
            Command::SelectCard { card_id } => CommandView::SelectCard { card_id: card_id@ },
            Command::ChoosePlayer => CommandView::ChoosePlayer,
            Command::Play { card_id, x, y } => CommandView::Play { card_id: card_id@, x: *x, y: *y },
            Command::Check { x, y } => CommandView::Check { x: *x, y: *y },
        }
    }
}

} // verus!
