use crate::square::{BookMove, Square};
use vstd::prelude::*;

verus! {

/// Which castling moves are still available to each side.
#[derive(Clone, Copy, Debug, PartialEq, Eq, Structural)]
pub struct CastlingRights {
    pub white_king_side: bool,
    pub white_queen_side: bool,
    pub black_king_side: bool,
    pub black_queen_side: bool,
}

/// The destination a castling move gets once "king takes own rook" is
/// rewritten as the king's landing square; any other move keeps its own.
pub open spec fn corrected_dest(source: Square, dest: Square, rights: CastlingRights) -> Square {
    if source.file == 4 && dest.rank == source.rank && (source.rank == 0 || source.rank == 7) {
        let king_side = if source.rank == 0 {
            rights.white_king_side
        } else {
            rights.black_king_side
        };
        let queen_side = if source.rank == 0 {
            rights.white_queen_side
        } else {
            rights.black_queen_side
        };
        if dest.file == 7 && king_side {
            Square { file: 6, rank: dest.rank }
        } else if dest.file == 0 && queen_side {
            Square { file: 2, rank: dest.rank }
        } else {
            dest
        }
    } else {
        dest
    }
}

pub open spec fn corrected_move(m: BookMove, rights: CastlingRights) -> BookMove {
    BookMove { dest: corrected_dest(m.source, m.dest, rights), ..m }
}

/// The square seen from the other side of the board.
pub open spec fn mirror_square(s: Square) -> Square {
    Square { file: s.file, rank: (7 - s.rank) as u8 }
}

/// The rights with the colours exchanged.
pub open spec fn swap_colors(r: CastlingRights) -> CastlingRights {
    CastlingRights {
        white_king_side: r.black_king_side,
        white_queen_side: r.black_queen_side,
        black_king_side: r.white_king_side,
        black_queen_side: r.white_queen_side,
    }
}

/// Rewrites a book castling move, given as the king moving onto its own
/// rook's home square, into the square the king lands on: the g-file on the
/// king side, the c-file on the queen side. It applies only to a move from
/// e1 (e8) to h1 or a1 (h8 or a8) while the matching right is held.
pub fn correct_castling(m: BookMove, rights: CastlingRights) -> (r: BookMove)
    ensures
        r == corrected_move(m, rights),
        r.source == m.source,
        r.promotion == m.promotion,
{
    if m.source.file == 4 && m.dest.rank == m.source.rank && (m.source.rank == 0
        || m.source.rank == 7) {
        let king_side = if m.source.rank == 0 {
            rights.white_king_side
        } else {
            rights.black_king_side
        };
        let queen_side = if m.source.rank == 0 {
            rights.white_queen_side
        } else {
            rights.black_queen_side
        };
        if m.dest.file == 7 && king_side {
            BookMove { dest: Square { file: 6, rank: m.dest.rank }, ..m }
        } else if m.dest.file == 0 && queen_side {
            BookMove { dest: Square { file: 2, rank: m.dest.rank }, ..m }
        } else {
            m
        }
    } else {
        m
    }
}

/// Correcting a move that was already corrected changes nothing.
pub proof fn lemma_correction_idempotent(m: BookMove, rights: CastlingRights)
    ensures
        corrected_move(corrected_move(m, rights), rights) == corrected_move(m, rights),
{
}

/// Mirroring the board and exchanging the colours' rights commutes with the
/// correction: White and Black castling are treated alike.
pub proof fn lemma_correction_symmetric(m: BookMove, rights: CastlingRights)
    requires
        m.wf(),
    ensures
        corrected_dest(mirror_square(m.source), mirror_square(m.dest), swap_colors(rights))
            == mirror_square(corrected_dest(m.source, m.dest, rights)),
{
}

/// Without the matching right, or from a square other than a king's home
/// square, the destination is left as it is.
pub proof fn lemma_correction_needs_right(m: BookMove, rights: CastlingRights)
    requires
        !(m.source == (Square { file: 4, rank: 0 }) && m.dest == (Square { file: 7, rank: 0 })
            && rights.white_king_side),
        !(m.source == (Square { file: 4, rank: 0 }) && m.dest == (Square { file: 0, rank: 0 })
            && rights.white_queen_side),
        !(m.source == (Square { file: 4, rank: 7 }) && m.dest == (Square { file: 7, rank: 7 })
            && rights.black_king_side),
        !(m.source == (Square { file: 4, rank: 7 }) && m.dest == (Square { file: 0, rank: 7 })
            && rights.black_queen_side),
    ensures
        corrected_move(m, rights) == m,
{
}

} // verus!
