//! What every attempted move respects.

use vstd::prelude::*;
use crate::board::{single_suited, Board, COLUMN_COUNT, FOUNDATION_COUNT};
use crate::card::KING;
use crate::position::{InputEvent, SelectedPos};

verus! {

/// A move from a column onto the same column changes no pile, whichever
/// cards the two positions name.
pub proof fn lemma_self_move_changes_nothing(board: Board, x: usize, y: usize, z: usize)
    ensures
        board.after_move(SelectedPos::Column(x, y), SelectedPos::Column(x, z)) == board,
{
}

/// An attempted move keeps eight columns and four foundations on the table.
pub proof fn lemma_move_keeps_shape(board: Board, src: SelectedPos, dest: SelectedPos)
    requires
        board.wf(),
    ensures
        board.after_move(src, dest).wf(),
{
}

/// Whenever an attempted move takes cards off a column and leaves some
/// behind, the card that becomes the column's top lies face-up.
pub proof fn lemma_move_reveals_new_top(
    board: Board,
    src: SelectedPos,
    dest: SelectedPos,
    x: int,
)
    requires
        board.wf(),
        0 <= x < COLUMN_COUNT,
    ensures
        ({
            let after = board.after_move(src, dest).columns[x];
            0 < after.len() < board.columns[x].len() ==> !after.last().hidden
        }),
{
}

/// Whenever an attempted move makes a column grow, the cards it held stay in
/// place, and the first card put on them obeys the column rule: on an empty
/// column it is a king, on any other it has the colour opposite to the old
/// top card's and the rank just below it.
pub proof fn lemma_column_growth_obeys_rule(
    board: Board,
    src: SelectedPos,
    dest: SelectedPos,
    x: int,
)
    requires
        board.wf(),
        0 <= x < COLUMN_COUNT,
    ensures
        ({
            let before = board.columns[x];
            let after = board.after_move(src, dest).columns[x];
            after.len() > before.len() ==> {
                &&& after.subrange(0, before.len() as int) == before
                &&& before.len() == 0 ==> after[0].number == KING
                &&& before.len() > 0 ==> before.last().spec_color() != after[before.len() as int].spec_color()
                    && before.last().number == after[before.len() as int].number + 1
            }
        }),
{
    let before = board.columns[x];
    let after = board.after_move(src, dest).columns[x];
    if after.len() > before.len() {
        assert(after.subrange(0, before.len() as int) =~= before);
    }
}

/// A foundation that holds one suit only still does so after an attempted
/// move, and while it is not emptied its suit stays the one it had: every
/// card that a move puts on a foundation of suit S has suit S.
pub proof fn lemma_foundation_keeps_suit(
    board: Board,
    src: SelectedPos,
    dest: SelectedPos,
    n: int,
)
    requires
        board.wf(),
        0 <= n < FOUNDATION_COUNT,
        single_suited(board.foundations[n]),
    ensures
        ({
            let before = board.foundations[n];
            let after = board.after_move(src, dest).foundations[n];
            &&& single_suited(after)
            &&& before.len() > 0 && after.len() > 0 ==> after.last().suit == before.last().suit
        }),
{
    let before = board.foundations[n];
    let after = board.after_move(src, dest).foundations[n];
    if before.len() > 0 {
        assert(before[before.len() - 1].suit == before[0].suit);
    }
    assert forall|i: int, j: int| 0 <= i < after.len() && 0 <= j < after.len() implies (
    #[trigger] after[i]).suit == (#[trigger] after[j]).suit by {
        if i < before.len() {
            assert(after[i] == before[i]);
            assert(before[i].suit == before[0].suit);
        }
        if j < before.len() {
            assert(after[j] == before[j]);
            assert(before[j].suit == before[0].suit);
        }
    }
}

/// Whenever an input event takes cards off a column and leaves some behind,
/// the card that becomes the column's top lies face-up.
pub proof fn lemma_event_reveals_new_top(
    board: Board,
    selected: SelectedPos,
    ev: InputEvent,
    x: int,
)
    requires
        board.wf(),
        0 <= x < COLUMN_COUNT,
    ensures
        ({
            let after = board.after_event(selected, ev).columns[x];
            0 < after.len() < board.columns[x].len() ==> !after.last().hidden
        }),
{
    match ev {
        InputEvent::LeftRelease { column, row } => {
            lemma_move_reveals_new_top(
                board.after_click(column as usize, row as usize),
                selected,
                board.resolve(column as usize, row as usize),
                x,
            );
        },
        _ => {},
    }
}

/// Foundations that hold one suit each still do so after any input event.
pub proof fn lemma_event_keeps_foundation_suits(
    board: Board,
    selected: SelectedPos,
    ev: InputEvent,
)
    requires
        board.wf(),
        board.foundations_single_suited(),
    ensures
        board.after_event(selected, ev).foundations_single_suited(),
{
    let after = board.after_event(selected, ev);
    assert forall|n: int| 0 <= n < after.foundations.len() implies single_suited(
        #[trigger] after.foundations[n],
    ) by {
        assert(single_suited(board.foundations[n]));
        match ev {
            InputEvent::LeftRelease { column, row } => {
                lemma_foundation_keeps_suit(
                    board.after_click(column as usize, row as usize),
                    selected,
                    board.resolve(column as usize, row as usize),
                    n,
                );
            },
            _ => {},
        }
    }
}

} // verus!
