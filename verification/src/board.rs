//! The board data model: colours, piece kinds, pieces, and the 64-square
//! grid with its FEN-style placement parser.
use vstd::prelude::*;

verus! {

/// The colour of a piece. It is purely a piece attribute; nothing here
/// tracks whose turn it is.
#[derive(Clone, Copy, PartialEq, Eq, Structural, Debug)]
pub enum Colour {
    Black,
    White,
}

/// The six kinds of chess piece.
#[derive(Clone, Copy, PartialEq, Eq, Structural, Debug)]
pub enum PieceType {
    Pawn,
    Knight,
    Bishop,
    Rook,
    Queen,
    King,
}

/// An immutable (colour, kind) pair. Each square holds at most one.
#[derive(Clone, Copy, PartialEq, Eq, Structural, Debug)]
pub struct Piece {
    pub colour: Colour,
    pub piece_type: PieceType,
}

impl Piece {
    pub fn new(colour: Colour, piece_type: PieceType) -> (r: Piece)
        ensures
            r.colour == colour,
            r.piece_type == piece_type,
    {
        Piece { colour, piece_type }
    }

    pub fn colour(&self) -> (r: &Colour)
        ensures
            *r == self.colour,
    {
        &self.colour
    }

    pub fn piece_type(&self) -> (r: &PieceType)
        ensures
            *r == self.piece_type,
    {
        &self.piece_type
    }
}

/// Why a placement string was rejected: it held no token at all, or its
/// first token held a character that is not `/`, a digit, or one of the
/// twelve piece letters.
#[derive(Clone, Copy, PartialEq, Eq, Structural, Debug)]
pub enum ParseError {
    Empty,
    InvalidSymbol(char),
}

/// Whitespace for the purpose of splitting a placement string into tokens
/// (the ASCII whitespace characters).
pub open spec fn is_fen_ws(c: char) -> bool {
    c == ' ' || c == '\t' || c == '\n' || c == '\u{b}' || c == '\u{c}' || c == '\r'
}

/// The piece a placement letter stands for: upper case is White, lower case
/// Black; any other character stands for no piece.
pub open spec fn fen_piece(c: char) -> Option<Piece> {
    match c {
        'P' => Some(Piece { colour: Colour::White, piece_type: PieceType::Pawn }),
        'N' => Some(Piece { colour: Colour::White, piece_type: PieceType::Knight }),
        'B' => Some(Piece { colour: Colour::White, piece_type: PieceType::Bishop }),
        'R' => Some(Piece { colour: Colour::White, piece_type: PieceType::Rook }),
        'K' => Some(Piece { colour: Colour::White, piece_type: PieceType::King }),
        'Q' => Some(Piece { colour: Colour::White, piece_type: PieceType::Queen }),
        'p' => Some(Piece { colour: Colour::Black, piece_type: PieceType::Pawn }),
        'n' => Some(Piece { colour: Colour::Black, piece_type: PieceType::Knight }),
        'b' => Some(Piece { colour: Colour::Black, piece_type: PieceType::Bishop }),
        'r' => Some(Piece { colour: Colour::Black, piece_type: PieceType::Rook }),
        'k' => Some(Piece { colour: Colour::Black, piece_type: PieceType::King }),
        'q' => Some(Piece { colour: Colour::Black, piece_type: PieceType::Queen }),
        _ => None,
    }
}

pub open spec fn is_fen_digit(c: char) -> bool {
    '0' as u32 <= c as u32 && c as u32 <= '9' as u32
}

pub open spec fn fen_digit_val(c: char) -> int {
    c as u32 - '0' as u32
}

/// A character the placement scanner accepts.
pub open spec fn fen_symbol_ok(c: char) -> bool {
    c == '/' || is_fen_digit(c) || fen_piece(c) is Some
}

/// The scanner's state: the grid built so far and the rank/file cursors.
/// `row` stays within 0..=7 (a `/` below row 0 is ignored); `col` is capped
/// at 64, beyond which every value behaves alike (no square of the current
/// rank can be addressed until the next `/`).
pub ghost struct FenState {
    pub board: Seq<Option<Piece>>,
    pub row: int,
    pub col: int,
}

pub open spec fn fen_init() -> FenState {
    FenState { board: Seq::new(64, |i: int| Option::<Piece>::None), row: 7, col: 0 }
}

/// One scanner step: `/` moves to the rank below and resets the file, a
/// digit skips that many files, and a piece letter fills the addressed
/// square — when it lies on the grid — and advances one file.
pub open spec fn fen_apply(st: FenState, c: char) -> FenState {
    if c == '/' {
        FenState { board: st.board, row: if st.row > 0 { st.row - 1 } else { 0 }, col: 0 }
    } else if is_fen_digit(c) {
        let nc = st.col + fen_digit_val(c);
        FenState { board: st.board, row: st.row, col: if nc > 64 { 64 } else { nc } }
    } else {
        match fen_piece(c) {
            Some(p) => {
                let idx = st.row * 8 + st.col;
                FenState {
                    board: if idx < 64 { st.board.update(idx, Some(p)) } else { st.board },
                    row: st.row,
                    col: if st.col + 1 > 64 { 64 } else { st.col + 1 },
                }
            },
            None => st,
        }
    }
}

pub open spec fn fen_fold(st: FenState, tok: Seq<char>) -> FenState
    decreases tok.len(),
{
    if tok.len() == 0 {
        st
    } else {
        fen_fold(fen_apply(st, tok[0]), tok.drop_first())
    }
}

/// The grid a whole placement token denotes.
pub open spec fn fen_board(tok: Seq<char>) -> Seq<Option<Piece>> {
    fen_fold(fen_init(), tok).board
}

/// The leading run of non-whitespace characters.
pub open spec fn take_until_ws(s: Seq<char>) -> Seq<char>
    decreases s.len(),
{
    if s.len() == 0 || is_fen_ws(s[0]) {
        Seq::empty()
    } else {
        seq![s[0]] + take_until_ws(s.drop_first())
    }
}

/// The first whitespace-delimited token of a string (empty when the string
/// holds none).
pub open spec fn first_token(s: Seq<char>) -> Seq<char>
    decreases s.len(),
{
    if s.len() == 0 {
        Seq::empty()
    } else if is_fen_ws(s[0]) {
        first_token(s.drop_first())
    } else {
        take_until_ws(s)
    }
}

pub open spec fn fen_all_ok(tok: Seq<char>) -> bool {
    forall|i: int| 0 <= i < tok.len() ==> fen_symbol_ok(#[trigger] tok[i])
}

/// The position of the first rejected character of a token (its length when
/// every character is accepted).
pub open spec fn first_bad_index(tok: Seq<char>) -> int
    decreases tok.len(),
{
    if tok.len() == 0 {
        0
    } else if !fen_symbol_ok(tok[0]) {
        0
    } else {
        1 + first_bad_index(tok.drop_first())
    }
}

proof fn lemma_first_bad_index(tok: Seq<char>, k: int)
    requires
        0 <= k < tok.len(),
        forall|j: int| 0 <= j < k ==> fen_symbol_ok(#[trigger] tok[j]),
        !fen_symbol_ok(tok[k]),
    ensures
        first_bad_index(tok) == k,
    decreases k,
{
    if k > 0 {
        assert(forall|j: int|
            0 <= j < k - 1 ==> #[trigger] tok.drop_first()[j] == tok[j + 1]);
        lemma_first_bad_index(tok.drop_first(), k - 1);
    }
}

fn is_ws_char(c: char) -> (r: bool)
    ensures
        r == is_fen_ws(c),
{
    c == ' ' || c == '\t' || c == '\n' || c == '\u{b}' || c == '\u{c}' || c == '\r'
}

/// A fixed grid of 64 optional pieces, indexed by square number 0..=63.
/// Square `s` lies on row `s / 8` and column `s % 8`; row 7 holds the first
/// rank of a placement string and row 0 the last.
pub struct Board {
    squares: Vec<Option<Piece>>,
}

impl View for Board {
    type V = Seq<Option<Piece>>;

    closed spec fn view(&self) -> Seq<Option<Piece>> {
        self.squares@
    }
}

impl Board {
    /// The grid always holds exactly 64 squares.
    pub open spec fn wf(&self) -> bool {
        self@.len() == 64
    }

    pub fn new(squares: Vec<Option<Piece>>) -> (r: Board)
        requires
            squares@.len() == 64,
        ensures
            r.wf(),
            r@ == squares@,
    {
        Board { squares }
    }

    pub fn squares(&self) -> (r: &Vec<Option<Piece>>)
        ensures
            r@ == self@,
    {
        &self.squares
    }

    /// Read the piece standing on `square`, if any. An out-of-range square
    /// is a caller contract violation, excluded by `requires`.
    pub fn piece_at(&self, square: usize) -> (r: Option<Piece>)
        requires
            self.wf(),
            square < 64,
        ensures
            r == self@[square as int],
    {
        self.squares[square]
    }

    /// Build a board from the piece-placement field of a FEN-style string:
    /// the first whitespace-delimited token, scanned character by character.
    /// A string with no token is rejected as `Empty`; a token with a
    /// character other than `/`, a digit or a piece letter is rejected as
    /// `InvalidSymbol` carrying the first such character. No further shape
    /// check is made: a malformed token yields a malformed board, not an
    /// error.
    pub fn from_fen(fen: &str) -> (r: Result<Board, ParseError>)
        ensures
            ({
                let tok = first_token(fen@);
                &&& (r is Ok <==> tok.len() > 0 && fen_all_ok(tok))
                &&& (r matches Ok(b) ==> b.wf() && b@ == fen_board(tok))
                &&& (tok.len() == 0 ==> r == Err::<Board, ParseError>(ParseError::Empty))
                &&& (tok.len() > 0 && !fen_all_ok(tok) ==> r == Err::<Board, ParseError>(
                    ParseError::InvalidSymbol(tok[first_bad_index(tok)]),
                ))
            }),
    {
        let len = fen.unicode_len();

        // Find where the first token starts.
        let mut i: usize = 0;
        proof {
            assert(fen@.subrange(0, len as int) =~= fen@);
        }
        loop
            invariant_except_break
                i <= len,
                len == fen@.len(),
                first_token(fen@) == first_token(fen@.subrange(i as int, len as int)),
            ensures
                i <= len,
                len == fen@.len(),
                first_token(fen@) == first_token(fen@.subrange(i as int, len as int)),
                i < len ==> !is_fen_ws(fen@[i as int]),
                i == len ==> first_token(fen@).len() == 0,
            decreases len - i,
        {
            if i >= len {
                proof {
                    assert(fen@.subrange(i as int, len as int).len() == 0);
                }
                break;
            }
            let c = fen.get_char(i);
            if !is_ws_char(c) {
                break;
            }
            proof {
                let rest = fen@.subrange(i as int, len as int);
                assert(rest.drop_first() =~= fen@.subrange(i + 1, len as int));
            }
            i += 1;
        }

        if i == len {
            return Err(ParseError::Empty);
        }

        // Collect the token's characters.
        let start = i;
        let mut j = i;
        let mut tokv: Vec<char> = Vec::new();
        proof {
            let rest = fen@.subrange(start as int, len as int);
            assert(rest.len() > 0 && !is_fen_ws(rest[0]));
            assert(first_token(fen@) == take_until_ws(rest));
        }
        loop
            invariant_except_break
                start <= j <= len,
                len == fen@.len(),
                tokv@ + take_until_ws(fen@.subrange(j as int, len as int)) == take_until_ws(
                    fen@.subrange(start as int, len as int),
                ),
            ensures
                tokv@ == take_until_ws(fen@.subrange(start as int, len as int)),
            decreases len - j,
        {
            if j >= len {
                proof {
                    assert(take_until_ws(fen@.subrange(j as int, len as int)) =~= Seq::<
                        char,
                    >::empty());
                    assert(tokv@ =~= tokv@ + Seq::<char>::empty());
                }
                break;
            }
            let c = fen.get_char(j);
            if is_ws_char(c) {
                proof {
                    assert(tokv@ =~= tokv@ + Seq::<char>::empty());
                }
                break;
            }
            proof {
                let rest = fen@.subrange(j as int, len as int);
                assert(rest.drop_first() =~= fen@.subrange(j + 1, len as int));
                assert(take_until_ws(rest) == seq![rest[0]] + take_until_ws(rest.drop_first()));
                assert((tokv@ + seq![c]) + take_until_ws(fen@.subrange(j + 1, len as int))
                    =~= tokv@ + take_until_ws(rest));
            }
            tokv.push(c);
            j += 1;
        }

        let ghost tok = first_token(fen@);
        proof {
            assert(tok == tokv@);
            assert(tok.len() > 0);
        }

        // Scan the token, building the grid.
        let mut squares: Vec<Option<Piece>> = Vec::new();
        let mut z: usize = 0;
        while z < 64
            invariant
                z <= 64,
                squares@.len() == z,
                forall|q: int| 0 <= q < z ==> squares@[q] is None,
            decreases 64 - z,
        {
            squares.push(None);
            z += 1;
        }
        proof {
            assert(squares@ =~= fen_init().board);
        }

        let n = tokv.len();
        let mut row: usize = 7;
        let mut col: usize = 0;
        let mut k: usize = 0;
        proof {
            assert(tok.skip(0) =~= tok);
        }
        while k < n
            invariant
                k <= n,
                n == tokv@.len(),
                tokv@ == tok,
                tok == first_token(fen@),
                row <= 7,
                col <= 64,
                squares@.len() == 64,
                forall|q: int| 0 <= q < k ==> fen_symbol_ok(#[trigger] tok[q]),
                fen_fold(
                    FenState { board: squares@, row: row as int, col: col as int },
                    tok.skip(k as int),
                ) == fen_fold(fen_init(), tok),
            decreases n - k,
        {
            let ghost st = FenState { board: squares@, row: row as int, col: col as int };
            proof {
                let rest = tok.skip(k as int);
                assert(rest.len() > 0 && rest[0] == tok[k as int]);
                assert(rest.drop_first() =~= tok.skip(k + 1));
                assert(fen_fold(st, rest) == fen_fold(fen_apply(st, tok[k as int]), tok.skip(k + 1)));
            }
            let c = tokv[k];
            if c == '/' {
                if row > 0 {
                    row -= 1;
                }
                col = 0;
            } else {
                let u = c as u32;
                if 48 <= u && u <= 57 {
                    col = col + ((u - 48) as usize);
                    if col > 64 {
                        col = 64;
                    }
                } else {
                    let piece = match c {
                        'P' => Some(Piece::new(Colour::White, PieceType::Pawn)),
                        'N' => Some(Piece::new(Colour::White, PieceType::Knight)),
                        'B' => Some(Piece::new(Colour::White, PieceType::Bishop)),
                        'R' => Some(Piece::new(Colour::White, PieceType::Rook)),
                        'K' => Some(Piece::new(Colour::White, PieceType::King)),
                        'Q' => Some(Piece::new(Colour::White, PieceType::Queen)),
                        'p' => Some(Piece::new(Colour::Black, PieceType::Pawn)),
                        'n' => Some(Piece::new(Colour::Black, PieceType::Knight)),
                        'b' => Some(Piece::new(Colour::Black, PieceType::Bishop)),
                        'r' => Some(Piece::new(Colour::Black, PieceType::Rook)),
                        'k' => Some(Piece::new(Colour::Black, PieceType::King)),
                        'q' => Some(Piece::new(Colour::Black, PieceType::Queen)),
                        _ => None,
                    };
                    match piece {
                        Some(p) => {
                            let idx = row * 8 + col;
                            if idx < 64 {
                                squares[idx] = Some(p);
                            }
                            col += 1;
                            if col > 64 {
                                col = 64;
                            }
                        },
                        None => {
                            proof {
                                assert(!fen_symbol_ok(tok[k as int]));
                                lemma_first_bad_index(tok, k as int);
                            }
                            return Err(ParseError::InvalidSymbol(c));
                        },
                    }
                }
            }
            proof {
                assert(fen_apply(st, tok[k as int]) == (FenState {
                    board: squares@,
                    row: row as int,
                    col: col as int,
                }));
            }
            k += 1;
        }

        proof {
            assert(tok.skip(n as int) =~= Seq::<char>::empty());
            assert(squares@ == fen_board(tok));
        }
        Ok(Board::new(squares))
    }

    /// Unconditionally relocate whatever occupies `from` onto `to`, leaving
    /// `from` empty. Whatever stood on `to` is overwritten; no legality
    /// check is made here.
    pub fn move_piece(&mut self, from: usize, to: usize)
        requires
            old(self).wf(),
            from < 64,
            to < 64,
        ensures
            final(self).wf(),
            final(self)@ == old(self)@.update(to as int, old(self)@[from as int]).update(
                from as int,
                Option::<Piece>::None,
            ),
    {
        let p = self.squares[from];
        self.squares[to] = p;
        self.squares[from] = None;
    }
}

/// The back-rank piece kind standing on column `c` at the start of a game.
pub open spec fn back_rank_type(c: int) -> PieceType {
    if c == 0 || c == 7 {
        PieceType::Rook
    } else if c == 1 || c == 6 {
        PieceType::Knight
    } else if c == 2 || c == 5 {
        PieceType::Bishop
    } else if c == 3 {
        PieceType::Queen
    } else {
        PieceType::King
    }
}

/// The piece on square `sq` in the standard initial position: the first
/// rank of the placement string (Black's) fills row 7, so Black stands on
/// rows 6 and 7 and White on rows 0 and 1.
pub open spec fn start_square(sq: int) -> Option<Piece> {
    let r = sq / 8;
    let c = sq % 8;
    if r == 0 {
        Some(Piece { colour: Colour::White, piece_type: back_rank_type(c) })
    } else if r == 1 {
        Some(Piece { colour: Colour::White, piece_type: PieceType::Pawn })
    } else if r == 6 {
        Some(Piece { colour: Colour::Black, piece_type: PieceType::Pawn })
    } else if r == 7 {
        Some(Piece { colour: Colour::Black, piece_type: back_rank_type(c) })
    } else {
        None
    }
}

/// The standard initial position, square by square.
pub open spec fn start_board() -> Seq<Option<Piece>> {
    Seq::new(64, |i: int| start_square(i))
}

fn start_piece(sq: usize) -> (r: Option<Piece>)
    requires
        sq < 64,
    ensures
        r == start_square(sq as int),
{
    let row = sq / 8;
    let c = sq % 8;
    let kind = if c == 0 || c == 7 {
        PieceType::Rook
    } else if c == 1 || c == 6 {
        PieceType::Knight
    } else if c == 2 || c == 5 {
        PieceType::Bishop
    } else if c == 3 {
        PieceType::Queen
    } else {
        PieceType::King
    };
    if row == 0 {
        Some(Piece::new(Colour::White, kind))
    } else if row == 1 {
        Some(Piece::new(Colour::White, PieceType::Pawn))
    } else if row == 6 {
        Some(Piece::new(Colour::Black, PieceType::Pawn))
    } else if row == 7 {
        Some(Piece::new(Colour::Black, kind))
    } else {
        None
    }
}

impl Default for Board {
    /// The standard initial position: what parsing the standard placement
    /// string yields. Building it square by square cannot fail.
    fn default() -> (r: Board)
        ensures
            r.wf(),
            r@ == start_board(),
    {
        let mut squares: Vec<Option<Piece>> = Vec::new();
        let mut sq: usize = 0;
        while sq < 64
            invariant
                sq <= 64,
                squares@.len() == sq,
                forall|q: int| 0 <= q < sq ==> squares@[q] == start_square(q),
            decreases 64 - sq,
        {
            squares.push(start_piece(sq));
            sq += 1;
        }
        proof {
            assert(squares@ =~= start_board());
        }
        Board::new(squares)
    }
}

} // verus!
