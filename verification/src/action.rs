use vstd::prelude::*;

use crate::piece::PieceType;

verus! {

/// A pseudo-legal move: source square, destination square, and kind.
/// `Castle` and `Promote` exist in the data model but the generator only
/// produces `Normal` actions.
#[derive(Debug, Clone, Copy, PartialEq, Eq, Structural)]
pub struct Action {
    pub to: i32,
    pub from: i32,
    pub action_type: ActionType,
}

#[derive(Debug, Clone, Copy, PartialEq, Eq, Structural)]
pub enum ActionType {
    Normal,
    Castle,
    Promote(PieceType),
}

/// The normal action moving the piece on `from` to `to`.
pub open spec fn normal_action(from: int, to: int) -> Action {
    Action { from: from as i32, to: to as i32, action_type: ActionType::Normal }
}

impl Action {
    pub fn new(from: i32, to: i32, action_type: Option<ActionType>) -> (r: Action)
        ensures
            r.from == from,
            r.to == to,
            action_type is Some ==> r.action_type == action_type->0,
            action_type is None ==> r.action_type == ActionType::Normal,
    {
        Action {
            from,
            to,
            action_type: match action_type {
                Some(a_type) => a_type,
                None => ActionType::Normal,
            },
        }
    }
}

impl Default for ActionType {
    fn default() -> (r: ActionType)
        ensures
            r == ActionType::Normal,
    {
        ActionType::Normal
    }
}

} // verus!
