//! What a click does to a game: selecting a piece, choosing one of its moves,
//! choosing the piece of a promotion.

use vstd::prelude::*;
use crate::moves::make_move::{Move, MoveKind};
use crate::moves::move_gen::move_gen::{get_possible_moves, spec_possible_moves};
use crate::position::{Position, PositionView};
use crate::{on_board, Piece, Square};

verus! {

/// What the player did.
#[derive(Copy, Clone, Debug, PartialEq, Eq)]
pub enum UiEvent {
    ClickSquare(Square),
    ClickPromotionSquare(Piece),
    ClickResetButton,
}

/// What the game waits for besides a click on the board: the choice of the
/// piece that a pawn becomes by the move that is kept here.
#[allow(non_camel_case_types)]
#[derive(Copy, Clone, Debug, PartialEq, Eq)]
pub enum UiState {
    PROMOTION { pending_move: Move },
}

/// A game in progress: the position, the selected square with the moves of
/// the piece on it, and a promotion that waits for its piece.
#[derive(Clone, Debug)]
pub struct GameState {
    pub position: Position,
    pub selected: Option<Square>,
    pub possible_moves: Vec<Move>,
    pub ui_state: Option<UiState>,
}

/// A game as a mathematical value.
pub struct GameStateView {
    pub position: PositionView,
    pub selected: Option<Square>,
    pub possible_moves: Seq<Move>,
    pub ui_state: Option<UiState>,
}

impl View for GameState {
    type V = GameStateView;

    open spec fn view(&self) -> GameStateView {
        GameStateView {
            position: self.position@,
            selected: self.selected,
            possible_moves: self.possible_moves@,
            ui_state: self.ui_state,
        }
    }
}

/// The first of `moves` that goes to `to_square`, if any does.
pub open spec fn first_move_to(moves: Seq<Move>, to_square: Square) -> Option<Move>
    decreases moves.len(),
{
    if moves.len() == 0 {
        None
    } else if moves[0].to_square == to_square {
        Some(moves[0])
    } else {
        first_move_to(moves.drop_first(), to_square)
    }
}

impl GameStateView {
    /// This game with no square selected and no moves on offer.
    pub open spec fn deselected(self) -> GameStateView {
        GameStateView {
            position: self.position,
            selected: None,
            possible_moves: Seq::empty(),
            ui_state: self.ui_state,
        }
    }
}

impl GameState {
    /// The game after a click on `square` that chooses no move: a piece of
    /// the side to move is selected and its moves are on offer; any other
    /// square, and a piece whose moves cannot be generated, leaves nothing
    /// selected.
    pub open spec fn after_select(&self, square: Square) -> GameStateView {
        match self.position.board@[square as int] {
            None => self@.deselected(),
            Some(occupant) => if occupant.side != self.position.side_to_move {
                self@.deselected()
            } else {
                match spec_possible_moves(&self.position, square) {
                    Ok(moves) => GameStateView {
                        position: self.position@,
                        selected: Some(square),
                        possible_moves: moves,
                        ui_state: self.ui_state,
                    },
                    Err(_) => self@.deselected(),
                }
            },
        }
    }

    /// The game after the chosen move `mv`: a promotion is kept until its
    /// piece is chosen; any other move is applied, and where it cannot be,
    /// the position stays. Either way nothing is selected afterwards.
    pub open spec fn after_choice(&self, mv: Move) -> GameStateView {
        if mv.move_kind is Promotion {
            GameStateView {
                position: self.position@,
                selected: None,
                possible_moves: Seq::empty(),
                ui_state: Some(UiState::PROMOTION { pending_move: mv }),
            }
        } else {
            match self.position@.after_validated(mv) {
                Ok(next) => GameStateView {
                    position: next,
                    selected: None,
                    possible_moves: Seq::empty(),
                    ui_state: self.ui_state,
                },
                Err(_) => self@.deselected(),
            }
        }
    }

    /// The game after a click on `square`. While a promotion waits for its
    /// piece, nothing happens. A click on the selected square takes the
    /// selection back. With a square selected, a click on the destination of
    /// one of the moves on offer chooses the first such move. Any other click
    /// selects.
    pub open spec fn after_click(&self, square: Square) -> GameStateView {
        if self.ui_state is Some {
            self@
        } else {
            match self.selected {
                None => self.after_select(square),
                Some(selected) => if square == selected {
                    self@.deselected()
                } else {
                    match first_move_to(self.possible_moves@, square) {
                        Some(mv) => self.after_choice(mv),
                        None => self.after_select(square),
                    }
                },
            }
        }
    }

    /// The game after the choice of `piece` for a promotion. A pawn is no
    /// choice and changes nothing, and without a promotion that waits nothing
    /// changes either. Else the move that was kept is applied with `piece` as
    /// its promotion piece; where it cannot be applied the position stays.
    /// No promotion waits afterwards and nothing is selected.
    pub open spec fn after_promotion(&self, piece: Piece) -> GameStateView {
        if piece == Piece::Pawn {
            self@
        } else {
            match self.ui_state {
                None => self@,
                Some(UiState::PROMOTION { pending_move }) => {
                    let mv = Move {
                        from_square: pending_move.from_square,
                        to_square: pending_move.to_square,
                        colored_piece: pending_move.colored_piece,
                        move_kind: MoveKind::Promotion { promotion_piece: Some(piece) },
                    };
                    GameStateView {
                        position: match self.position@.after_validated(mv) {
                            Ok(next) => next,
                            Err(_) => self.position@,
                        },
                        selected: None,
                        possible_moves: Seq::empty(),
                        ui_state: None,
                    }
                },
            }
        }
    }

    /// The game after `ui_event`. The reset button changes nothing.
    pub open spec fn after_event(&self, ui_event: UiEvent) -> GameStateView {
        match ui_event {
            UiEvent::ClickResetButton => self@,
            UiEvent::ClickPromotionSquare(piece) => self.after_promotion(piece),
            UiEvent::ClickSquare(square) => self.after_click(square),
        }
    }
}

/// The first of `moves` that goes to `to_square`.
fn find_move_to(moves: &Vec<Move>, to_square: Square) -> (res: Option<Move>)
    ensures
        res == first_move_to(moves@, to_square),
{
    let mut i: usize = 0;
    assert(moves@.skip(0) =~= moves@);
    while i < moves.len()
        invariant
            i <= moves.len(),
            first_move_to(moves@, to_square) == first_move_to(moves@.skip(i as int), to_square),
        decreases moves.len() - i,
    {
        assert(moves@.skip(i as int)[0] == moves@[i as int]);
        assert(moves@.skip(i as int).drop_first() =~= moves@.skip(i + 1));
        if moves[i].to_square == to_square {
            return Some(moves[i]);
        }
        i += 1;
    }
    None
}

/// Takes the selection back.
fn deselect(game_state: &mut GameState)
    ensures
        final(game_state)@ == old(game_state)@.deselected(),
{
    game_state.possible_moves.clear();
    game_state.selected = None;
    assert(game_state.possible_moves@ =~= Seq::<Move>::empty());
}

/// Selects the piece on `from_square`, if the side to move has one there.
fn select(game_state: &mut GameState, from_square: Square)
    requires
        on_board(from_square as int),
    ensures
        final(game_state)@ == old(game_state).after_select(from_square),
{
    let square_occupant = match game_state.position.board[from_square as usize] {
        Some(p) => p,
        None => {
            deselect(game_state);
            return ;
        },
    };

    if square_occupant.side != game_state.position.side_to_move {
        deselect(game_state);
        return ;
    }

    match get_possible_moves(&game_state.position, from_square) {
        Ok(moves) => {
            game_state.selected = Some(from_square);
            game_state.possible_moves = moves;
        },
        Err(_x) => {
            deselect(game_state);
        },
    }
}

/// Applies the event to the game.
pub fn apply_ui_event(game_state: &mut GameState, ui_event: UiEvent)
    requires
        ui_event matches UiEvent::ClickSquare(square) ==> on_board(square as int),
    ensures
        final(game_state)@ == old(game_state).after_event(ui_event),
{
    match ui_event {
        UiEvent::ClickResetButton => {},
        UiEvent::ClickPromotionSquare(piece) => {
            click_promotion(game_state, piece);
        },
        UiEvent::ClickSquare(square) => {
            click_square(game_state, square);
        },
    }
}

/// Chooses `piece` for the promotion that waits, and makes the move.
pub fn click_promotion(game_state: &mut GameState, piece: Piece)
    ensures
        final(game_state)@ == old(game_state).after_promotion(piece),
{
    if piece == Piece::Pawn {
        return ;
    }

    let mut mv = match game_state.ui_state {
        Some(UiState::PROMOTION { pending_move }) => pending_move,
        None => {
            return ;
        },
    };
    game_state.ui_state = None;

    mv.move_kind = MoveKind::Promotion { promotion_piece: Some(piece) };

    match game_state.position.make_move_validated(&mv) {
        Ok(p) => {
            game_state.position = p;
            deselect(game_state);
        },
        Err(_e) => {
            deselect(game_state);
        },
    }
}

/// Handles a click on a square of the board: selects a piece, takes the
/// selection back, or makes the move that leads to the square.
pub fn click_square(game_state: &mut GameState, from_square: Square)
    requires
        on_board(from_square as int),
    ensures
        final(game_state)@ == old(game_state).after_click(from_square),
{
    if game_state.ui_state.is_some() {
        return ;
    }

    let selected_square = match game_state.selected {
        None => {
            select(game_state, from_square);
            return ;
        },
        Some(x) => x,
    };

    if from_square == selected_square {
        deselect(game_state);
        return ;
    }

    if let Some(chosen_move) = find_move_to(&game_state.possible_moves, from_square) {
        if let MoveKind::Promotion { promotion_piece: _ } = chosen_move.move_kind {
            game_state.ui_state = Some(UiState::PROMOTION { pending_move: chosen_move });
            deselect(game_state);
            return ;
        }

        match game_state.position.make_move_validated(&chosen_move) {
            Ok(p) => {
                game_state.position = p;
                deselect(game_state);
            },
            Err(_e) => {
                deselect(game_state);
            },
        }
        return ;
    }

    select(game_state, from_square);
}

} // verus!
