//! The rule evaluator: pseudo-legal move legality over a borrowed board.
use vstd::prelude::*;

use crate::board::Board;
use crate::board::Colour;
use crate::board::Piece;
use crate::board::PieceType;

verus! {

/// A (source, destination) pair of square numbers.
pub struct Move {
    from: usize,
    to: usize,
}

impl Move {
    pub closed spec fn spec_from(&self) -> usize {
        self.from
    }

    pub closed spec fn spec_to(&self) -> usize {
        self.to
    }

    pub fn new(from: usize, to: usize) -> (r: Move)
        ensures
            r.spec_from() == from,
            r.spec_to() == to,
    {
        Move { from, to }
    }

    pub fn from(&self) -> (r: usize)
        ensures
            r == self.spec_from(),
    {
        self.from
    }

    pub fn to(&self) -> (r: usize)
        ensures
            r == self.spec_to(),
    {
        self.to
    }
}

/// The row of a square: its distance in whole ranks from the start of the
/// grid.
pub open spec fn sq_row(sq: int) -> int {
    sq / 8
}

/// The column (file) of a square.
pub open spec fn sq_col(sq: int) -> int {
    sq % 8
}

pub open spec fn abs_val(d: int) -> int {
    if d < 0 {
        -d
    } else {
        d
    }
}

pub open spec fn sign(d: int) -> int {
    if d > 0 {
        1
    } else if d < 0 {
        -1
    } else {
        0
    }
}

/// The destination admits the moving colour: it is empty or holds an
/// opposite-colour piece.
pub open spec fn capturable(b: Seq<Option<Piece>>, to: int, c: Colour) -> bool {
    match b[to] {
        Option::Some(p) => p.colour != c,
        Option::None => true,
    }
}

/// The path-clearance walk, one square at a time along the linear square
/// index. From `cur`, while stepping keeps the column on the board, it
/// advances by `step`; reaching `to` means the ray is clear, and any other
/// occupied square on the way blocks it. Running off the board edge before
/// reaching `to` also counts as clear: the walk refuses to look past the
/// edge rather than rejecting the destination. With `step == 0` the walk
/// stays on `cur` and is blocked by whatever stands there.
pub open spec fn ray_clear(b: Seq<Option<Piece>>, cur: int, to: int, step: int) -> bool
    decreases (if step >= 0 {
        7 - sq_col(cur)
    } else {
        sq_col(cur)
    }),
{
    if !(0 <= sq_col(cur) + step && sq_col(cur) + step < 8) {
        true
    } else if step == 0 {
        cur == to || b[cur] is None
    } else {
        let next = cur + step;
        if next == to {
            true
        } else if b[next] is Some {
            false
        } else {
            ray_clear(b, next, to, step)
        }
    }
}

/// A pawn's rule: one forward step onto an empty square (towards lower
/// squares for White, higher for Black), a double step from the pawn's
/// starting row over two empty squares, or a one-row one-column diagonal
/// step capturing an opposite-colour piece.
pub open spec fn pawn_ok(b: Seq<Option<Piece>>, from: int, to: int, c: Colour) -> bool {
    let diff = to - from;
    if (c == Colour::White && diff == -8) || (c == Colour::Black && diff == 8) {
        b[to] is None
    } else if c == Colour::White && diff == -16 && sq_row(from) == 6 {
        b[from - 8] is None && b[to] is None
    } else if c == Colour::Black && diff == 16 && sq_row(from) == 1 {
        b[from + 8] is None && b[to] is None
    } else if abs_val(sq_col(to) - sq_col(from)) == 1 && abs_val(sq_row(to) - sq_row(from)) == 1 {
        b[to] matches Some(p) && p.colour != c
    } else {
        false
    }
}

pub open spec fn knight_ok(b: Seq<Option<Piece>>, from: int, to: int, c: Colour) -> bool {
    let rd = abs_val(sq_row(to) - sq_row(from));
    let cd = abs_val(sq_col(to) - sq_col(from));
    ((rd == 2 && cd == 1) || (rd == 1 && cd == 2)) && capturable(b, to, c)
}

/// A bishop's delta signature: the linear index difference is a multiple
/// of 7 or of 9. Only the signature is tested here, not that row and
/// column move in step, so the path walk is what restricts the move.
pub open spec fn bishop_delta_ok(from: int, to: int) -> bool {
    (to - from) % 7 == 0 || (to - from) % 9 == 0
}

/// A rook's delta signature: same file, or a column difference of at most
/// seven — which any two squares satisfy, so for a rook the path walk
/// alone decides.
pub open spec fn rook_delta_ok(from: int, to: int) -> bool {
    (to - from) % 8 == 0 || abs_val(sq_col(to) - sq_col(from)) <= 7
}

pub open spec fn bishop_ok(b: Seq<Option<Piece>>, from: int, to: int, c: Colour) -> bool {
    bishop_delta_ok(from, to) && capturable(b, to, c) && ray_clear(b, from, to, sign(to - from))
}

pub open spec fn rook_ok(b: Seq<Option<Piece>>, from: int, to: int, c: Colour) -> bool {
    rook_delta_ok(from, to) && capturable(b, to, c) && ray_clear(
        b,
        from,
        to,
        sign(sq_col(to) - sq_col(from)),
    )
}

/// A queen moves on either signature, and needs one of the two walks —
/// the rook's (stepping by the column difference's sign) or the bishop's
/// (stepping by the index difference's sign) — to come out clear.
pub open spec fn queen_ok(b: Seq<Option<Piece>>, from: int, to: int, c: Colour) -> bool {
    (rook_delta_ok(from, to) || bishop_delta_ok(from, to)) && capturable(b, to, c) && (ray_clear(
        b,
        from,
        to,
        sign(sq_col(to) - sq_col(from)),
    ) || ray_clear(b, from, to, sign(to - from)))
}

/// A king steps to one of the eight adjacent linear offsets. No wrap check
/// is made, so an offset across the board edge also passes.
pub open spec fn king_ok(b: Seq<Option<Piece>>, from: int, to: int, c: Colour) -> bool {
    let d = abs_val(to - from);
    (d == 1 || d == 7 || d == 8 || d == 9) && capturable(b, to, c)
}

/// Whether moving the piece on `from` to `to` is pseudo-legal: `from`
/// must hold a piece, `to` must be a different square on the board, and
/// the piece's own rule must admit the pair.
pub open spec fn move_ok(b: Seq<Option<Piece>>, from: int, to: int) -> bool {
    b[from] matches Some(p) && from != to && 0 <= to <= 63 && match p.piece_type {
        PieceType::Pawn => pawn_ok(b, from, to, p.colour),
        PieceType::Knight => knight_ok(b, from, to, p.colour),
        PieceType::Bishop => bishop_ok(b, from, to, p.colour),
        PieceType::Rook => rook_ok(b, from, to, p.colour),
        PieceType::Queen => queen_ok(b, from, to, p.colour),
        PieceType::King => king_ok(b, from, to, p.colour),
    }
}

/// The path-clearance walk, executed. `step` is the per-square advance
/// along the linear index, `-1`, `0` or `1`; with `step == 0` the walk
/// never leaves `from`, so it needs the caller's guarantee that a piece
/// stands there (every caller walks away from an occupied square).
fn is_path_clear(board: &Board, from: usize, to: usize, step: i32) -> (r: bool)
    requires
        board.wf(),
        from < 64,
        -1 <= step <= 1,
        step == 0 ==> from != to && board@[from as int] is Some,
    ensures
        r == ray_clear(board@, from as int, to as int, step as int),
{
    if step == 0 {
        return false;
    }
    let mut current: usize = from;
    if step == 1 {
        while current % 8 + 1 < 8
            invariant
                board.wf(),
                current < 64,
                step == 1,
                ray_clear(board@, from as int, to as int, 1) == ray_clear(
                    board@,
                    current as int,
                    to as int,
                    1,
                ),
            decreases 7 - current % 8,
        {
            current = current + 1;
            if current == to {
                return true;
            }
            if board.piece_at(current).is_some() {
                return false;
            }
        }
        true
    } else {
        while current % 8 >= 1
            invariant
                board.wf(),
                current < 64,
                step == -1,
                ray_clear(board@, from as int, to as int, -1) == ray_clear(
                    board@,
                    current as int,
                    to as int,
                    -1,
                ),
            decreases current % 8,
        {
            current = current - 1;
            if current == to {
                return true;
            }
            if board.piece_at(current).is_some() {
                return false;
            }
        }
        true
    }
}

fn dest_capturable(board: &Board, to: usize, c: Colour) -> (r: bool)
    requires
        board.wf(),
        to < 64,
    ensures
        r == capturable(board@, to as int, c),
{
    match board.piece_at(to) {
        Some(q) => q.colour != c,
        None => true,
    }
}

fn pawn_move_ok(board: &Board, from: usize, to: usize, c: Colour) -> (r: bool)
    requires
        board.wf(),
        from < 64,
        to < 64,
    ensures
        r == pawn_ok(board@, from as int, to as int, c),
{
    if (c == Colour::White && from == to + 8) || (c == Colour::Black && to == from + 8) {
        return board.piece_at(to).is_none();
    }
    if c == Colour::White && from == to + 16 && from / 8 == 6 {
        return board.piece_at(from - 8).is_none() && board.piece_at(to).is_none();
    }
    if c == Colour::Black && to == from + 16 && from / 8 == 1 {
        return board.piece_at(from + 8).is_none() && board.piece_at(to).is_none();
    }
    let (rd, cd) = row_col_distances(from, to);
    if cd == 1 && rd == 1 {
        return match board.piece_at(to) {
            Some(q) => q.colour != c,
            None => false,
        };
    }
    false
}

/// The absolute row and column differences between two squares.
fn row_col_distances(from: usize, to: usize) -> (r: (usize, usize))
    requires
        from < 64,
        to < 64,
    ensures
        r.0 == abs_val(sq_row(to as int) - sq_row(from as int)),
        r.1 == abs_val(sq_col(to as int) - sq_col(from as int)),
{
    let fr = from / 8;
    let fc = from % 8;
    let tr = to / 8;
    let tc = to % 8;
    let rd = if tr >= fr { tr - fr } else { fr - tr };
    let cd = if tc >= fc { tc - fc } else { fc - tc };
    (rd, cd)
}

fn knight_move_ok(board: &Board, from: usize, to: usize, c: Colour) -> (r: bool)
    requires
        board.wf(),
        from < 64,
        to < 64,
    ensures
        r == knight_ok(board@, from as int, to as int, c),
{
    let (rd, cd) = row_col_distances(from, to);
    ((rd == 2 && cd == 1) || (rd == 1 && cd == 2)) && dest_capturable(board, to, c)
}

fn bishop_move_ok(board: &Board, from: usize, to: usize, c: Colour) -> (r: bool)
    requires
        board.wf(),
        from < 64,
        to < 64,
        from != to,
    ensures
        r == bishop_ok(board@, from as int, to as int, c),
{
    let d = if to >= from { to - from } else { from - to };
    let step: i32 = if to > from { 1 } else { -1 };
    (d % 7 == 0 || d % 9 == 0) && dest_capturable(board, to, c) && is_path_clear(
        board,
        from,
        to,
        step,
    )
}

fn rook_move_ok(board: &Board, from: usize, to: usize, c: Colour) -> (r: bool)
    requires
        board.wf(),
        from < 64,
        to < 64,
        from != to,
        board@[from as int] is Some,
    ensures
        r == rook_ok(board@, from as int, to as int, c),
{
    let d = if to >= from { to - from } else { from - to };
    let fc = from % 8;
    let tc = to % 8;
    let cd = if tc >= fc { tc - fc } else { fc - tc };
    let step: i32 = if tc > fc {
        1
    } else if tc < fc {
        -1
    } else {
        0
    };
    (d % 8 == 0 || cd <= 7) && dest_capturable(board, to, c) && is_path_clear(board, from, to, step)
}

fn queen_move_ok(board: &Board, from: usize, to: usize, c: Colour) -> (r: bool)
    requires
        board.wf(),
        from < 64,
        to < 64,
        from != to,
        board@[from as int] is Some,
    ensures
        r == queen_ok(board@, from as int, to as int, c),
{
    let d = if to >= from { to - from } else { from - to };
    let fc = from % 8;
    let tc = to % 8;
    let cd = if tc >= fc { tc - fc } else { fc - tc };
    let rook_step: i32 = if tc > fc {
        1
    } else if tc < fc {
        -1
    } else {
        0
    };
    let bishop_step: i32 = if to > from { 1 } else { -1 };
    (d % 8 == 0 || cd <= 7 || d % 7 == 0 || d % 9 == 0) && dest_capturable(board, to, c) && (
    is_path_clear(board, from, to, rook_step) || is_path_clear(board, from, to, bishop_step))
}

fn king_move_ok(board: &Board, from: usize, to: usize, c: Colour) -> (r: bool)
    requires
        board.wf(),
        from < 64,
        to < 64,
    ensures
        r == king_ok(board@, from as int, to as int, c),
{
    let d = if to >= from { to - from } else { from - to };
    (d == 1 || d == 7 || d == 8 || d == 9) && dest_capturable(board, to, c)
}

/// Decide whether moving the piece on `from` to `to` is pseudo-legal.
/// Turn order, check and the special moves are no concern of this rule;
/// an empty source, an off-board destination or `from == to` simply yield
/// `false`. An off-board *source* is a caller contract violation, excluded
/// by `requires`.
pub fn is_valid_move(board: &Board, from: usize, to: usize) -> (r: bool)
    requires
        board.wf(),
        from < 64,
    ensures
        r == move_ok(board@, from as int, to as int),
{
    let piece_opt = board.piece_at(from);
    if piece_opt.is_none() || from == to || to > 63 {
        return false;
    }
    let p = piece_opt.unwrap();
    match p.piece_type {
        PieceType::Pawn => pawn_move_ok(board, from, to, p.colour),
        PieceType::Knight => knight_move_ok(board, from, to, p.colour),
        PieceType::Bishop => bishop_move_ok(board, from, to, p.colour),
        PieceType::Rook => rook_move_ok(board, from, to, p.colour),
        PieceType::Queen => queen_move_ok(board, from, to, p.colour),
        PieceType::King => king_move_ok(board, from, to, p.colour),
    }
}

/// Every pseudo-legal destination from `from`, in ascending square order.
pub fn get_valid_moves(board: &Board, from: usize) -> (r: Vec<usize>)
    requires
        board.wf(),
        from < 64,
    ensures
        forall|i: int, j: int| 0 <= i < j < r@.len() ==> r@[i] < r@[j],
        forall|i: int| 0 <= i < r@.len() ==> r@[i] < 64,
        forall|sq: usize|
            sq < 64 ==> (r@.contains(sq) <==> move_ok(board@, from as int, sq as int)),
{
    let mut valid_moves: Vec<usize> = Vec::new();
    let mut to: usize = 0;
    while to < 64
        invariant
            to <= 64,
            board.wf(),
            from < 64,
            forall|i: int, j: int|
                0 <= i < j < valid_moves@.len() ==> valid_moves@[i] < valid_moves@[j],
            forall|i: int|
                0 <= i < valid_moves@.len() ==> #[trigger] valid_moves@[i] < to && move_ok(
                    board@,
                    from as int,
                    valid_moves@[i] as int,
                ),
            forall|sq: usize|
                sq < to && move_ok(board@, from as int, sq as int)
                    ==> valid_moves@.contains(sq),
        decreases 64 - to,
    {
        if is_valid_move(board, from, to) {
            let ghost prev = valid_moves@;
            valid_moves.push(to);
            proof {
                assert(valid_moves@[prev.len() as int] == to);
                assert(forall|sq: usize|
                    prev.contains(sq) ==> #[trigger] valid_moves@.contains(sq)) by {
                    assert(forall|i: int| 0 <= i < prev.len() ==> valid_moves@[i] == prev[i]);
                }
            }
        }
        to += 1;
    }
    valid_moves
}

/// A move is never legal from a square onto itself, onto a destination
/// beyond the board, or from an empty square — whatever the position.
pub proof fn lemma_universal_preconditions(b: Seq<Option<Piece>>, from: int, to: int)
    ensures
        from == to ==> !move_ok(b, from, to),
        to > 63 ==> !move_ok(b, from, to),
        b[from] is None ==> !move_ok(b, from, to),
{
}

/// Within the first `k` steps of the walk from `cur` by `step`, every step
/// so far stays on the board and short of `to`, and an occupied square
/// stands at the end of those steps (or earlier).
pub open spec fn ray_blocked_within(
    b: Seq<Option<Piece>>,
    cur: int,
    to: int,
    step: int,
    k: int,
) -> bool
    decreases k,
{
    k >= 1 && 0 <= sq_col(cur) + step < 8 && {
        let next = cur + step;
        next != to && (b[next] is Some || ray_blocked_within(b, next, to, step, k - 1))
    }
}

/// A walk that meets an occupied square before reaching `to` reports the
/// ray blocked — whatever the occupant's colour, which the walk never
/// reads.
pub proof fn lemma_blocked_ray(b: Seq<Option<Piece>>, from: int, to: int, step: int, k: int)
    requires
        step == 1 || step == -1,
        ray_blocked_within(b, from, to, step, k),
    ensures
        !ray_clear(b, from, to, step),
    decreases k,
{
    let next = from + step;
    if b[next] is Some {
    } else {
        lemma_blocked_ray(b, next, to, step, k - 1);
    }
}

/// An occupied square on the walk of a bishop's claimed ray makes the
/// move illegal, whatever colour the occupant has.
pub proof fn lemma_blocked_bishop(b: Seq<Option<Piece>>, from: int, to: int, k: int)
    requires
        b[from] matches Some(p) && p.piece_type == PieceType::Bishop,
        from != to,
        ray_blocked_within(b, from, to, sign(to - from), k),
    ensures
        !move_ok(b, from, to),
{
    lemma_blocked_ray(b, from, to, sign(to - from), k);
}

/// An occupied square on the walk of a rook's claimed ray makes the move
/// illegal. A rook aimed within its own file never moves at all: its walk
/// steps by zero and is blocked by the rook itself.
pub proof fn lemma_blocked_rook(b: Seq<Option<Piece>>, from: int, to: int, k: int)
    requires
        b[from] matches Some(p) && p.piece_type == PieceType::Rook,
        from != to,
        sq_col(from) != sq_col(to) ==> ray_blocked_within(
            b,
            from,
            to,
            sign(sq_col(to) - sq_col(from)),
            k,
        ),
    ensures
        !move_ok(b, from, to),
{
    if sq_col(from) != sq_col(to) {
        lemma_blocked_ray(b, from, to, sign(sq_col(to) - sq_col(from)), k);
    }
}

/// A queen's move is illegal when both of its walks are blocked before
/// `to` (the rook-style walk is blocked at once when the columns agree).
pub proof fn lemma_blocked_queen(b: Seq<Option<Piece>>, from: int, to: int, k1: int, k2: int)
    requires
        b[from] matches Some(p) && p.piece_type == PieceType::Queen,
        from != to,
        sq_col(from) != sq_col(to) ==> ray_blocked_within(
            b,
            from,
            to,
            sign(sq_col(to) - sq_col(from)),
            k1,
        ),
        ray_blocked_within(b, from, to, sign(to - from), k2),
    ensures
        !move_ok(b, from, to),
{
    if sq_col(from) != sq_col(to) {
        lemma_blocked_ray(b, from, to, sign(sq_col(to) - sq_col(from)), k1);
    }
    lemma_blocked_ray(b, from, to, sign(to - from), k2);
}

} // verus!
