use vstd::prelude::*;
use vstd::string::StringSliceAdditionalSpecFns;
use crate::bits::{bit_count, flip_ranks, flipped};

verus! {

/// The kinds of chess pieces.
#[derive(Clone, Copy, Debug, PartialEq, Eq, Structural)]
pub enum Piece {
    Pawn,
    Knight,
    Bishop,
    Rook,
    Queen,
    King,
}

/// The two sides.
#[derive(Clone, Copy, Debug, PartialEq, Eq, Structural)]
pub enum Color {
    White,
    Black,
}

/// Whether a game goes on in a position, and how it ended where it does not.
#[derive(Clone, Copy, Debug, PartialEq, Eq, Structural)]
pub enum BoardStatus {
    Ongoing,
    Stalemate,
    Checkmate,
}

impl Piece {
    /// The piece's number, from 0 for a pawn to 5 for a king.
    pub open spec fn spec_index(self) -> int {
        match self {
            Piece::Pawn => 0,
            Piece::Knight => 1,
            Piece::Bishop => 2,
            Piece::Rook => 3,
            Piece::Queen => 4,
            Piece::King => 5,
        }
    }

    /// The piece's number, from 0 for a pawn to 5 for a king.
    pub fn index(self) -> (r: usize)
        ensures
            r == self.spec_index(),
    {
        match self {
            Piece::Pawn => 0,
            Piece::Knight => 1,
            Piece::Bishop => 2,
            Piece::Rook => 3,
            Piece::Queen => 4,
            Piece::King => 5,
        }
    }

    /// The piece with the number `i`; a king for every number above 4.
    pub open spec fn spec_from_index(i: int) -> Piece {
        if i == 0 {
            Piece::Pawn
        } else if i == 1 {
            Piece::Knight
        } else if i == 2 {
            Piece::Bishop
        } else if i == 3 {
            Piece::Rook
        } else if i == 4 {
            Piece::Queen
        } else {
            Piece::King
        }
    }

    /// The piece with the number `i`; a king for every number above 4.
    pub fn from_index(i: usize) -> (r: Piece)
        ensures
            r == Piece::spec_from_index(i as int),
    {
        if i == 0 {
            Piece::Pawn
        } else if i == 1 {
            Piece::Knight
        } else if i == 2 {
            Piece::Bishop
        } else if i == 3 {
            Piece::Rook
        } else if i == 4 {
            Piece::Queen
        } else {
            Piece::King
        }
    }
}

/// A move: the squares it leaves and reaches, numbered from 0 (a1) along the
/// ranks to 63 (h8), and the piece a pawn turns into where it promotes.
#[derive(Clone, Copy, Debug, PartialEq, Eq, Structural)]
pub struct Move {
    pub source: u8,
    pub dest: u8,
    pub promotion: Option<Piece>,
}

/// Where the pieces stand: one set of squares for each kind of piece and for
/// each side, bit `i` standing for square `i`.
#[derive(Clone, Copy, Debug, PartialEq, Eq, Structural)]
pub struct Placement {
    pub pawns: u64,
    pub knights: u64,
    pub bishops: u64,
    pub rooks: u64,
    pub queens: u64,
    pub kings: u64,
    pub white: u64,
    pub black: u64,
}

impl Placement {
    /// The placement seen from the other side: every piece on the opposite
    /// rank, and the sides exchanged.
    pub open spec fn mirror(self) -> Placement {
        Placement {
            pawns: flip_ranks(self.pawns),
            knights: flip_ranks(self.knights),
            bishops: flip_ranks(self.bishops),
            rooks: flip_ranks(self.rooks),
            queens: flip_ranks(self.queens),
            kings: flip_ranks(self.kings),
            white: flip_ranks(self.black),
            black: flip_ranks(self.white),
        }
    }

    /// Whether no square is held by both sides.
    pub open spec fn sides_apart(self) -> bool {
        self.white & self.black == 0
    }

    /// The placement seen from the other side.
    pub fn mirrored(&self) -> (r: Placement)
        ensures
            r == self.mirror(),
    {
        Placement {
            pawns: flipped(self.pawns),
            knights: flipped(self.knights),
            bishops: flipped(self.bishops),
            rooks: flipped(self.rooks),
            queens: flipped(self.queens),
            kings: flipped(self.kings),
            white: flipped(self.black),
            black: flipped(self.white),
        }
    }
}

/// What a position is to the engine: the placement, the side to move, the
/// position's hash, and the rights that the placement does not show.
pub struct PositionData {
    pub placement: Placement,
    pub white_to_move: bool,
    pub hash: u64,
    /// The castling rights of White and of Black and the en-passant square.
    pub rights: Seq<u64>,
}

/// `chess::Board`, the board of the `chess` crate, declared so that it can
/// be held and handed on. What is inside is not seen; `board_squares` and
/// `board_state` name it.
#[verifier::external_type_specification]
#[verifier::external_body]
pub struct ExBoard(chess::Board);

/// The squares that a board holds: the six sets of squares by kind of piece,
/// pawns first, then White's squares and Black's.
pub uninterp spec fn board_squares(b: chess::Board) -> Seq<u64>;

/// The rest of what a board holds: the side to move (0 for White), the hash,
/// the castling rights of White and of Black, and the en-passant square.
pub uninterp spec fn board_state(b: chess::Board) -> Seq<u64>;

/// The legal moves in a position, in the order in which the move generator
/// gives them.
pub uninterp spec fn legal_moves_of(p: PositionData) -> Seq<Move>;

/// The position that a move leads to.
pub uninterp spec fn position_after(p: PositionData, m: Move) -> PositionData;

/// How the game stands in a position.
pub uninterp spec fn status_of(p: PositionData) -> BoardStatus;

/// The position that a FEN text describes, if it describes one.
pub uninterp spec fn position_of_fen(fen: Seq<char>) -> Option<PositionData>;

/// A position as a FEN text.
pub uninterp spec fn fen_of(p: PositionData) -> Seq<char>;

/// The square that a file letter from a to h and a rank digit from 1 to 8
/// name.
pub open spec fn square_of_text(file: u8, rank: u8) -> Option<u8> {
    if 97 <= file <= 104 && 49 <= rank <= 56 {
        Some(((rank - 49) * 8 + (file - 97)) as u8)
    } else {
        None
    }
}

/// The piece that a promotion letter names: q, r, n or b.
pub open spec fn promotion_of_letter(c: u8) -> Option<Piece> {
    if c == 113 {
        Some(Piece::Queen)
    } else if c == 114 {
        Some(Piece::Rook)
    } else if c == 110 {
        Some(Piece::Knight)
    } else if c == 98 {
        Some(Piece::Bishop)
    } else {
        None
    }
}

/// The move that the bytes of a text in coordinate notation name: the
/// first four bytes name the two squares; a text of five bytes names a
/// promotion with its last; what follows in a longer text counts for
/// nothing.
pub open spec fn move_of_bytes(t: Seq<u8>) -> Option<Move> {
    if t.len() < 4 {
        None
    } else {
        match (square_of_text(t[0], t[1]), square_of_text(t[2], t[3])) {
            (Some(source), Some(dest)) => if t.len() == 5 {
                match promotion_of_letter(t[4]) {
                    Some(piece) => Some(Move { source, dest, promotion: Some(piece) }),
                    None => None,
                }
            } else {
                Some(Move { source, dest, promotion: None })
            },
            _ => None,
        }
    }
}

/// The move that a text in coordinate notation names, such as `e2e4` or
/// `e7e8q`, if it names one.
pub open spec fn move_of_text(text: Seq<char>) -> Option<Move> {
    move_of_bytes(vstd::utf8::encode_utf8(text))
}

/// A square in coordinate notation: its file letter and its rank digit.
pub open spec fn text_of_square(sq: u8) -> Seq<char> {
    seq![((97 + sq % 8) as u8) as char, ((49 + sq / 8) as u8) as char]
}

/// The letter of a piece.
pub open spec fn letter_of_piece(p: Piece) -> char {
    match p {
        Piece::Pawn => 'p',
        Piece::Knight => 'n',
        Piece::Bishop => 'b',
        Piece::Rook => 'r',
        Piece::Queen => 'q',
        Piece::King => 'k',
    }
}

/// A move in coordinate notation: its two squares, and the letter of the
/// piece that a pawn turns into.
pub open spec fn text_of_move(m: Move) -> Seq<char> {
    text_of_square(m.source) + text_of_square(m.dest) + match m.promotion {
        Some(piece) => seq![letter_of_piece(piece)],
        None => Seq::empty(),
    }
}

/// What a board is to the engine.
pub open spec fn board_data(b: chess::Board) -> PositionData {
    PositionData {
        placement: Placement {
            pawns: board_squares(b)[0],
            knights: board_squares(b)[1],
            bishops: board_squares(b)[2],
            rooks: board_squares(b)[3],
            queens: board_squares(b)[4],
            kings: board_squares(b)[5],
            white: board_squares(b)[6],
            black: board_squares(b)[7],
        },
        white_to_move: board_state(b)[0] == 0,
        hash: board_state(b)[1],
        rights: board_state(b).skip(2),
    }
}

/// Whether the sides are as the move generator takes them to be: each has
/// one king, which the generator looks up, and no more than `MAX_PIECES`
/// pieces, since the generator keeps one record for each piece of the side
/// to move and has room for no more than 18.
pub open spec fn sides_fit(p: PositionData) -> bool {
    &&& bit_count(p.placement.white) <= MAX_PIECES
    &&& bit_count(p.placement.black) <= MAX_PIECES
    &&& bit_count(p.placement.kings & p.placement.white) == 1
    &&& bit_count(p.placement.kings & p.placement.black) == 1
}

/// Reads the placement off a board with `Board::pieces` and
/// `Board::color_combined`: each field is the set that the board holds for it.
#[verifier::external_body]
fn board_placement(b: &chess::Board) -> (r: Placement)
    ensures
        r.pawns == board_squares(*b)[0],
        r.knights == board_squares(*b)[1],
        r.bishops == board_squares(*b)[2],
        r.rooks == board_squares(*b)[3],
        r.queens == board_squares(*b)[4],
        r.kings == board_squares(*b)[5],
        r.white == board_squares(*b)[6],
        r.black == board_squares(*b)[7],
{
    Placement {
        pawns: b.pieces(chess::Piece::Pawn).0,
        knights: b.pieces(chess::Piece::Knight).0,
        bishops: b.pieces(chess::Piece::Bishop).0,
        rooks: b.pieces(chess::Piece::Rook).0,
        queens: b.pieces(chess::Piece::Queen).0,
        kings: b.pieces(chess::Piece::King).0,
        white: b.color_combined(chess::Color::White).0,
        black: b.color_combined(chess::Color::Black).0,
    }
}

/// `Board::side_to_move`: whether it is White's turn.
#[verifier::external_body]
fn board_white_to_move(b: &chess::Board) -> (r: bool)
    ensures
        r == (board_state(*b)[0] == 0),
{
    match b.side_to_move() {
        chess::Color::White => true,
        chess::Color::Black => false,
    }
}

/// `Board::get_hash`: the board's Zobrist hash.
#[verifier::external_body]
fn board_hash(b: &chess::Board) -> (r: u64)
    ensures
        r == board_state(*b)[1],
{
    b.get_hash()
}

/// `Board::status`, which counts the legal moves of a board whose sides
/// fit the move generator: the game goes on exactly where there is one.
#[verifier::external_body]
fn board_status(b: &chess::Board) -> (r: BoardStatus)
    requires
        sides_fit(board_data(*b)),
    ensures
        r == status_of(board_data(*b)),
        (r == BoardStatus::Ongoing) == (legal_moves_of(board_data(*b)).len() > 0),
{
    match b.status() {
        chess::BoardStatus::Ongoing => BoardStatus::Ongoing,
        chess::BoardStatus::Stalemate => BoardStatus::Stalemate,
        chess::BoardStatus::Checkmate => BoardStatus::Checkmate,
    }
}

/// `MoveGen::new_legal`, collected, on a board whose sides fit the move
/// generator: the legal moves in the generator's order.
#[verifier::external_body]
fn board_legal_moves(b: &chess::Board) -> (r: Vec<Move>)
    requires
        sides_fit(board_data(*b)),
    ensures
        r@ == legal_moves_of(board_data(*b)),
{
    chess::MoveGen::new_legal(b).map(
        |m| Move {
            source: m.get_source().to_int(),
            dest: m.get_dest().to_int(),
            promotion: m.get_promotion().map(|p| Piece::from_index(p.to_index())),
        },
    ).collect()
}

/// `Board::make_move_new` for a legal move: the board after the move. A
/// move takes a piece from its square and sets it, or the piece that a pawn
/// turns into, on another, and may take one piece of the other side off
/// the board, never a king; it adds none, so the sides fit as before.
#[verifier::external_body]
fn board_after(b: &chess::Board, m: Move) -> (r: chess::Board)
    requires
        sides_fit(board_data(*b)),
        legal_moves_of(board_data(*b)).contains(m),
    ensures
        board_data(r) == position_after(board_data(*b), m),
        sides_fit(board_data(r)),
{
    b.make_move_new(
        chess::ChessMove::new(
            chess::ALL_SQUARES[m.source as usize],
            chess::ALL_SQUARES[m.dest as usize],
            m.promotion.map(|p| chess::ALL_PIECES[p.index()]),
        ),
    )
}

/// `Board::from_str` on a text whose placement field is sound, so that
/// each side has a king and no more than `MAX_PIECES` pieces: the board that
/// the FEN text describes, if it describes one. The board holds one piece
/// for each piece letter of the field, and the crate takes no board with
/// more or fewer than one king for a side, so the sides fit.
#[verifier::external_body]
fn board_of_fen(fen: &str) -> (r: Option<chess::Board>)
    requires
        placement_is_sound(fen.spec_bytes()),
    ensures
        match r {
            Some(b) => position_of_fen(fen@) == Some(board_data(b)) && sides_fit(board_data(b)),
            None => position_of_fen(fen@) is None,
        },
{
    <chess::Board as core::str::FromStr>::from_str(fen).ok()
}

/// `ChessMove`'s `to_string`: the two squares, each as its file letter and
/// rank digit, and the letter of the promotion piece where there is one.
#[verifier::external_body]
fn format_move(m: Move) -> (r: String)
    requires
        m.source < 64,
        m.dest < 64,
    ensures
        r@ == text_of_move(m),
{
    chess::ChessMove::new(
        chess::ALL_SQUARES[m.source as usize],
        chess::ALL_SQUARES[m.dest as usize],
        m.promotion.map(|p| chess::ALL_PIECES[p.index()]),
    ).to_string()
}

/// `Board`'s `to_string`: the board as a FEN text.
#[verifier::external_body]
fn board_fen(b: &chess::Board) -> (r: String)
    ensures
        r@ == fen_of(board_data(*b)),
{
    b.to_string()
}

/// `Board::default`: the board at the start of a game, which the crate
/// reads from the FEN text of that position, with 16 pieces for each side,
/// one of them a king.
#[verifier::external_body]
fn initial_board() -> (r: chess::Board)
    ensures
        position_of_fen(START_FEN@) == Some(board_data(r)),
        sides_fit(board_data(r)),
{
    chess::Board::default()
}

/// The position at the start of a game, as a FEN text.
pub const START_FEN: &'static str = "rnbqkbnr/pppppppp/8/8/8/8/PPPPPPPP/RNBQKBNR w KQkq - 0 1";

/// What is known of a placement field after a part of it was read: the
/// number of ranks that were closed, the number of squares of the open
/// rank, the number of pieces of each side, whether a king of each side was
/// met, and whether all was in order.
pub struct FieldScan {
    pub ranks: int,
    pub files: int,
    pub white: int,
    pub black: int,
    pub white_king: bool,
    pub black_king: bool,
    pub sound: bool,
}

/// The greatest number of pieces that a side can have in a game. The move
/// generator keeps one record for each piece of the side to move and has
/// room for no more than 18.
pub const MAX_PIECES: u8 = 16;

/// Whether a piece letter stands for a piece of White: a capital.
pub open spec fn is_white_letter(c: u8) -> bool {
    c < 97
}

/// Whether a byte is a letter that stands for a piece in a FEN text.
pub open spec fn is_piece_letter(c: u8) -> bool {
    c == 80 || c == 78 || c == 66 || c == 82 || c == 81 || c == 75 || c == 112 || c == 110 || c
        == 98 || c == 114 || c == 113 || c == 107
}

/// What is known after one more byte: a slash closes a rank, which must be
/// full and not the eighth; a digit from 1 to 8 stands for that many empty
/// squares and a piece letter for one square, which must fit into the
/// rank, and for one more piece of its side, which must not have more than
/// `MAX_PIECES`; any other byte is out of order.
pub open spec fn scan_step(s: FieldScan, c: u8) -> FieldScan {
    if !s.sound {
        s
    } else if c == 47 {
        FieldScan { ranks: s.ranks + 1, files: 0, sound: s.files == 8 && s.ranks < 7, ..s }
    } else if 49 <= c <= 56 {
        FieldScan { files: s.files + (c - 48), sound: s.files + (c - 48) <= 8, ..s }
    } else if is_piece_letter(c) {
        let white = if is_white_letter(c) {
            s.white + 1
        } else {
            s.white
        };
        let black = if is_white_letter(c) {
            s.black
        } else {
            s.black + 1
        };
        FieldScan {
            files: s.files + 1,
            white,
            black,
            sound: s.files + 1 <= 8 && white <= MAX_PIECES && black <= MAX_PIECES,
            white_king: s.white_king || c == 75,
            black_king: s.black_king || c == 107,
            ..s
        }
    } else {
        FieldScan { sound: false, ..s }
    }
}

/// What is known after the first `n` bytes of a text.
pub open spec fn scan_field(text: Seq<u8>, n: int) -> FieldScan
    decreases n,
{
    if n <= 0 {
        FieldScan {
            ranks: 0,
            files: 0,
            white: 0,
            black: 0,
            white_king: false,
            black_king: false,
            sound: true,
        }
    } else {
        scan_step(scan_field(text, n - 1), text[n - 1])
    }
}

/// Whether the first field of a FEN text, which gives the placement, is
/// sound: eight ranks of eight squares each, for each side no more than
/// `MAX_PIECES` pieces, and a king among them. The text is taken as its
/// bytes.
pub open spec fn placement_is_sound(fen: Seq<u8>) -> bool {
    let s = scan_field(fen, first_field_len(fen));
    s.sound && s.ranks == 7 && s.files == 8 && s.white_king && s.black_king
}

/// The length of the first field of a text: up to its first blank.
pub open spec fn first_field_len(text: Seq<u8>) -> int
    decreases text.len(),
{
    if text.len() == 0 || text[0] == 32 {
        0
    } else {
        1 + first_field_len(text.skip(1))
    }
}

proof fn lemma_first_field_len(text: Seq<u8>, n: int)
    requires
        0 <= n <= text.len(),
        forall|j: int| 0 <= j < n ==> text[j] != 32,
        n < text.len() ==> text[n] == 32,
    ensures
        first_field_len(text) == n,
    decreases n,
{
    if n > 0 {
        let rest = text.skip(1);
        assert forall|j: int| 0 <= j < n - 1 implies rest[j] != 32 by {
            assert(rest[j] == text[j + 1]);
        }
        lemma_first_field_len(rest, n - 1);
    }
}

/// Whether the placement field of a FEN text is sound.
pub fn fen_placement_is_sound(fen: &str) -> (r: bool)
    ensures
        r == placement_is_sound(fen.spec_bytes()),
{
    let bytes = fen.as_bytes();
    let mut ranks: u8 = 0;
    let mut files: u8 = 0;
    let mut white: u8 = 0;
    let mut black: u8 = 0;
    let mut white_king = false;
    let mut black_king = false;
    let mut sound = true;
    let mut i: usize = 0;
    while i < bytes.len() && bytes[i] != 32
        invariant
            i <= bytes@.len(),
            forall|j: int| 0 <= j < i ==> bytes@[j] != 32,
            sound ==> ranks <= 7 && files <= 8 && white <= MAX_PIECES && black <= MAX_PIECES,
            sound == scan_field(bytes@, i as int).sound,
            sound ==> scan_field(bytes@, i as int) == (FieldScan {
                ranks: ranks as int,
                files: files as int,
                white: white as int,
                black: black as int,
                white_king,
                black_king,
                sound,
            }),
        decreases bytes@.len() - i,
    {
        let c = bytes[i];
        if sound {
            if c == 47 {
                sound = files == 8 && ranks < 7;
                if sound {
                    ranks += 1;
                    files = 0;
                }
            } else if 49 <= c && c <= 56 {
                sound = files + (c - 48) <= 8;
                if sound {
                    files += c - 48;
                }
            } else if c == 80 || c == 78 || c == 66 || c == 82 || c == 81 || c == 75 || c == 112
                || c == 110 || c == 98 || c == 114 || c == 113 || c == 107 {
                let more_white: u8 = if c < 97 {
                    white + 1
                } else {
                    white
                };
                let more_black: u8 = if c < 97 {
                    black
                } else {
                    black + 1
                };
                sound = files + 1 <= 8 && more_white <= MAX_PIECES && more_black <= MAX_PIECES;
                if sound {
                    files += 1;
                    white = more_white;
                    black = more_black;
                    white_king = white_king || c == 75;
                    black_king = black_king || c == 107;
                }
            } else {
                sound = false;
            }
        }
        i += 1;
    }
    proof {
        lemma_first_field_len(bytes@, i as int);
    }
    sound && ranks == 7 && files == 8 && white_king && black_king
}

/// A chess position.
#[derive(Clone, Copy)]
pub struct Position {
    board: chess::Board,
}

impl View for Position {
    type V = PositionData;

    closed spec fn view(&self) -> PositionData {
        board_data(self.board)
    }
}

impl Position {
    /// Every position's sides are as the move generator takes them to be.
    #[verifier::type_invariant]
    closed spec fn fits(self) -> bool {
        sides_fit(board_data(self.board))
    }

    /// The position that a FEN text describes. None where the placement
    /// field of the text is not sound, or the text describes no position.
    pub fn from_fen(fen: &str) -> (r: Option<Position>)
        ensures
            match r {
                Some(p) => placement_is_sound(fen.spec_bytes()) && position_of_fen(fen@) == Some(
                    p@,
                ),
                None => !placement_is_sound(fen.spec_bytes()) || position_of_fen(fen@) is None,
            },
    {
        if !fen_placement_is_sound(fen) {
            return None;
        }
        match board_of_fen(fen) {
            Some(board) => Some(Position { board }),
            None => None,
        }
    }

    /// The position at the start of a game.
    pub fn initial() -> (r: Position)
        ensures
            position_of_fen(START_FEN@) == Some(r@),
    {
        Position { board: initial_board() }
    }

    /// The position after `m` where `m` is legal here, and none where it is not.
    pub fn try_move(&self, m: Move) -> (r: Option<Position>)
        ensures
            match r {
                Some(p) => legal_moves_of(self@).contains(m) && p@ == position_after(self@, m),
                None => !legal_moves_of(self@).contains(m),
            },
    {
        let moves = self.legal_moves();
        let mut i: usize = 0;
        while i < moves.len()
            invariant
                i <= moves@.len(),
                moves@ == legal_moves_of(self@),
                forall|j: int| 0 <= j < i ==> moves@[j] != m,
            decreases moves@.len() - i,
        {
            if moves[i] == m {
                return Some(self.make_move(m));
            }
            i += 1;
        }
        None
    }

    /// The position as a FEN text.
    pub fn to_fen(&self) -> (r: String)
        ensures
            r@ == fen_of(self@),
    {
        board_fen(&self.board)
    }

    /// Where the pieces stand.
    pub fn placement(&self) -> (r: Placement)
        ensures
            r == self@.placement,
    {
        board_placement(&self.board)
    }

    /// Whether it is White's turn.
    pub fn white_to_move(&self) -> (r: bool)
        ensures
            r == self@.white_to_move,
    {
        board_white_to_move(&self.board)
    }

    /// The position's hash.
    pub fn hash(&self) -> (r: u64)
        ensures
            r == self@.hash,
    {
        board_hash(&self.board)
    }

    /// How the game stands: it goes on exactly where a legal move exists.
    pub fn status(&self) -> (r: BoardStatus)
        ensures
            r == status_of(self@),
            (r == BoardStatus::Ongoing) == (legal_moves_of(self@).len() > 0),
    {
        proof {
            use_type_invariant(self);
        }
        board_status(&self.board)
    }

    /// The legal moves, in the move generator's order.
    pub fn legal_moves(&self) -> (r: Vec<Move>)
        ensures
            r@ == legal_moves_of(self@),
    {
        proof {
            use_type_invariant(self);
        }
        board_legal_moves(&self.board)
    }

    /// The position after a legal move.
    pub fn make_move(&self, m: Move) -> (r: Position)
        requires
            legal_moves_of(self@).contains(m),
        ensures
            r@ == position_after(self@, m),
    {
        proof {
            use_type_invariant(self);
        }
        Position { board: board_after(&self.board, m) }
    }
}

/// The square that a file letter and a rank digit name.
pub fn square_named(file: u8, rank: u8) -> (r: Option<u8>)
    ensures
        r == square_of_text(file, rank),
{
    if 97 <= file && file <= 104 && 49 <= rank && rank <= 56 {
        Some((rank - 49) * 8 + (file - 97))
    } else {
        None
    }
}

impl Move {
    /// The move that a text in coordinate notation names, such as `e2e4` or
    /// `e7e8q`.
    pub fn from_text(text: &str) -> (r: Option<Move>)
        ensures
            r == move_of_text(text@),
    {
        let t = text.as_bytes();
        if t.len() < 4 {
            return None;
        }
        let source = match square_named(t[0], t[1]) {
            Some(source) => source,
            None => {
                return None;
            },
        };
        let dest = match square_named(t[2], t[3]) {
            Some(dest) => dest,
            None => {
                return None;
            },
        };
        if t.len() == 5 {
            let piece = if t[4] == 113 {
                Piece::Queen
            } else if t[4] == 114 {
                Piece::Rook
            } else if t[4] == 110 {
                Piece::Knight
            } else if t[4] == 98 {
                Piece::Bishop
            } else {
                return None;
            };
            Some(Move { source, dest, promotion: Some(piece) })
        } else {
            Some(Move { source, dest, promotion: None })
        }
    }

    /// The move in coordinate notation. None where a square is off the board.
    pub fn to_text(&self) -> (r: Option<String>)
        ensures
            match r {
                Some(t) => self.source < 64 && self.dest < 64 && t@ == text_of_move(*self),
                None => self.source >= 64 || self.dest >= 64,
            },
    {
        if self.source < 64 && self.dest < 64 {
            Some(format_move(*self))
        } else {
            None
        }
    }
}

} // verus!
