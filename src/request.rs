use vstd::prelude::*;
use vstd::string::StrSliceExecFns;
use vstd::utf8::is_ascii_chars;

verus! {

#[verifier::external_type_specification]
#[verifier::external_body]
pub struct ExBoard(chess::Board);

#[verifier::external_type_specification]
#[verifier::external_body]
pub struct ExChessMove(chess::ChessMove);

#[verifier::external_type_specification]
#[verifier::external_body]
pub struct ExChessError(chess::Error);

/// Whether a position text is accepted as a board encoding (FEN) by the
/// chess library.
pub uninterp spec fn fen_accepted(s: Seq<char>) -> bool;

pub open spec fn is_file_letter(c: char) -> bool {
    'a' <= c && c <= 'h'
}

pub open spec fn is_rank_digit(c: char) -> bool {
    '1' <= c && c <= '8'
}

pub open spec fn is_promotion_letter(c: char) -> bool {
    c == 'q' || c == 'r' || c == 'n' || c == 'b'
}

/// An ASCII move text in long algebraic notation: two squares, then a
/// promotion letter where the text has exactly five characters; characters
/// past the fifth are not read.
pub open spec fn move_text_ok(s: Seq<char>) -> bool {
    &&& is_ascii_chars(s)
    &&& s.len() >= 4
    &&& is_file_letter(s[0]) && is_rank_digit(s[1])
    &&& is_file_letter(s[2]) && is_rank_digit(s[3])
    &&& s.len() == 5 ==> is_promotion_letter(s[4])
}

pub open spec fn is_piece_letter(c: char) -> bool {
    c == 'p' || c == 'n' || c == 'b' || c == 'r' || c == 'q' || c == 'k' || c == 'P' || c == 'N'
        || c == 'B' || c == 'R' || c == 'Q' || c == 'K'
}

pub open spec fn is_square_count(c: char) -> bool {
    '1' <= c && c <= '8'
}

/// The placement field (the text up to the first space) read from index
/// `i` on, with `slashes` rank separators passed, `squares` squares of the
/// current rank covered, and `white_kings` / `black_kings` kings seen: the
/// rest holds only piece letters, square counts and separators, every
/// rank covers exactly eight squares, there are eight ranks, and the field
/// places exactly one king of each colour.
pub open spec fn placement_from(
    s: Seq<char>,
    i: int,
    slashes: int,
    squares: int,
    white_kings: int,
    black_kings: int,
) -> bool
    decreases s.len() - i,
{
    if i < 0 || i >= s.len() || s[i] == ' ' {
        slashes == 7 && squares == 8 && white_kings == 1 && black_kings == 1
    } else if s[i] == '/' {
        slashes < 7 && squares == 8 && placement_from(s, i + 1, slashes + 1, 0, white_kings, black_kings)
    } else if is_square_count(s[i]) {
        let n = s[i] as int - '0' as int;
        squares + n <= 8 && placement_from(s, i + 1, slashes, squares + n, white_kings, black_kings)
    } else if is_piece_letter(s[i]) {
        squares + 1 <= 8 && placement_from(
            s,
            i + 1,
            slashes,
            squares + 1,
            white_kings + if s[i] == 'K' {
                1int
            } else {
                0
            },
            black_kings + if s[i] == 'k' {
                1int
            } else {
                0
            },
        )
    } else {
        false
    }
}

/// An ASCII position text whose placement field lays out the whole board
/// with one king of each colour.
pub open spec fn kings_placed(s: Seq<char>) -> bool {
    is_ascii_chars(s) && placement_from(s, 0, 0, 0, 0, 0)
}

/// Whether the position text is ASCII and its placement field lays out
/// eight ranks of eight squares with exactly one king of each colour.
pub fn placement_ok(s: &str) -> (r: bool)
    ensures
        r == kings_placed(s@),
{
    if !s.is_ascii() {
        return false;
    }
    let len = s.unicode_len();
    let mut i: usize = 0;
    let mut slashes: u64 = 0;
    let mut squares: u64 = 0;
    let mut white_kings: u64 = 0;
    let mut black_kings: u64 = 0;
    while i < len
        invariant
            len == s@.len(),
            is_ascii_chars(s@),
            i <= len,
            slashes <= 7,
            squares <= 8,
            white_kings <= i,
            black_kings <= i,
            kings_placed(s@) == placement_from(
                s@,
                i as int,
                slashes as int,
                squares as int,
                white_kings as int,
                black_kings as int,
            ),
        decreases len - i,
    {
        let c = s.get_char(i);
        if c == ' ' {
            return slashes == 7 && squares == 8 && white_kings == 1 && black_kings == 1;
        } else if c == '/' {
            if slashes >= 7 || squares != 8 {
                return false;
            }
            slashes = slashes + 1;
            squares = 0;
        } else if '1' <= c && c <= '8' {
            let n = (c as u32 - '0' as u32) as u64;
            if squares + n > 8 {
                return false;
            }
            squares = squares + n;
        } else if c == 'p' || c == 'n' || c == 'b' || c == 'r' || c == 'q' || c == 'k' || c == 'P'
            || c == 'N' || c == 'B' || c == 'R' || c == 'Q' || c == 'K' {
            if squares + 1 > 8 {
                return false;
            }
            squares = squares + 1;
            if c == 'K' {
                white_kings = white_kings + 1;
            }
            if c == 'k' {
                black_kings = black_kings + 1;
            }
        } else {
            return false;
        }
        i = i + 1;
    }
    slashes == 7 && squares == 8 && white_kings == 1 && black_kings == 1
}

/// Relies on chess's `FromStr for Board`: parses a FEN text. With both
/// kings placed on a full board, the position's own king is found before
/// the sanity check, so the parse returns a result.
#[verifier::external_body]
fn parse_board(s: &str) -> (r: Result<chess::Board, chess::Error>)
    requires
        kings_placed(s@),
    ensures
        r is Ok <==> fen_accepted(s@),
{
    <chess::Board as std::str::FromStr>::from_str(s)
}

/// Relies on chess's `FromStr for ChessMove`: reads two squares from the
/// first four bytes and a promotion letter when the text has five bytes.
#[verifier::external_body]
fn parse_move(s: &str) -> (r: Result<chess::ChessMove, chess::Error>)
    requires
        is_ascii_chars(s@),
    ensures
        r is Ok <==> move_text_ok(s@),
{
    <chess::ChessMove as std::str::FromStr>::from_str(s)
}

/// How the request bounds the search, in milliseconds.
#[derive(Clone, Copy, Debug, PartialEq, Eq, Structural)]
pub enum TimeControl {
    /// A total budget that each iteration spends.
    TimeLeft(u64),
    /// A fixed allocation for the whole search.
    ThinkTime(u64),
}

/// A decoded search request: a start position, the moves played from it,
/// and the time the search may take.
pub struct SearchRequest {
    pub time: TimeControl,
    pub init_pos: chess::Board,
    pub moves: Vec<chess::ChessMove>,
}

/// Why a request was refused.
#[derive(Clone, Copy, Debug, PartialEq, Eq, Structural)]
pub enum DecodeError {
    /// The position text is not a board encoding with one king of each
    /// colour.
    InvalidPosition,
    /// The move text at this index is not a move.
    InvalidMove(usize),
}

/// Decodes the fields of a request. The position is checked first (its
/// placement field, then the chess library's parse), then the
/// moves in order; the first failure is reported.
pub fn decode_request(init_pos: &str, moves: &Vec<String>, time: TimeControl) -> (r: Result<
    SearchRequest,
    DecodeError,
>)
    ensures
        !(kings_placed(init_pos@) && fen_accepted(init_pos@)) ==> r matches Err(
            DecodeError::InvalidPosition,
        ),
        kings_placed(init_pos@) && fen_accepted(init_pos@) ==> match r {
            Ok(q) => q.time == time && q.moves@.len() == moves@.len() && forall|i: int|
                0 <= i < moves@.len() ==> move_text_ok(#[trigger] moves@[i]@),
            Err(DecodeError::InvalidMove(i)) => i < moves@.len() && !move_text_ok(moves@[i as int]@)
                && forall|j: int| 0 <= j < i ==> move_text_ok(#[trigger] moves@[j]@),
            Err(DecodeError::InvalidPosition) => false,
        },
{
    if !placement_ok(init_pos) {
        return Err(DecodeError::InvalidPosition);
    }
    let board = match parse_board(init_pos) {
        Ok(b) => b,
        Err(_) => {
            return Err(DecodeError::InvalidPosition);
        },
    };
    let mut parsed: Vec<chess::ChessMove> = Vec::new();
    let mut i: usize = 0;
    while i < moves.len()
        invariant
            i <= moves@.len(),
            parsed@.len() == i,
            kings_placed(init_pos@),
            fen_accepted(init_pos@),
            forall|j: int| 0 <= j < i ==> move_text_ok(#[trigger] moves@[j]@),
        decreases moves@.len() - i,
    {
        let text = moves[i].as_str();
        if !text.is_ascii() {
            return Err(DecodeError::InvalidMove(i));
        }
        match parse_move(text) {
            Ok(m) => parsed.push(m),
            Err(_) => {
                return Err(DecodeError::InvalidMove(i));
            },
        }
        i = i + 1;
    }
    Ok(SearchRequest { time, init_pos: board, moves: parsed })
}

} // verus!
