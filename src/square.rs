use crate::text::push_char;
use vstd::prelude::*;

verus! {

/// A board square as file (0 = a .. 7 = h) and rank (0 = rank 1 .. 7 = rank 8).
#[derive(Clone, Copy, Debug, PartialEq, Eq, Structural)]
pub struct Square {
    pub file: u8,
    pub rank: u8,
}

/// The piece a pawn promotes to.
#[derive(Clone, Copy, Debug, PartialEq, Eq, Structural)]
pub enum Promotion {
    Knight,
    Bishop,
    Rook,
    Queen,
}

/// A move as the book stores it: source, destination and optional promotion.
#[derive(Clone, Copy, Debug, PartialEq, Eq, Structural)]
pub struct BookMove {
    pub source: Square,
    pub dest: Square,
    pub promotion: Option<Promotion>,
}

impl Square {
    pub open spec fn wf(self) -> bool {
        self.file < 8 && self.rank < 8
    }

    pub fn new(file: u8, rank: u8) -> (r: Square)
        requires
            file < 8,
            rank < 8,
        ensures
            r.file == file,
            r.rank == rank,
            r.wf(),
    {
        Square { file, rank }
    }
}

impl BookMove {
    pub open spec fn wf(self) -> bool {
        self.source.wf() && self.dest.wf()
    }
}

pub open spec fn file_char(f: u8) -> char {
    if f == 0 {
        'a'
    } else if f == 1 {
        'b'
    } else if f == 2 {
        'c'
    } else if f == 3 {
        'd'
    } else if f == 4 {
        'e'
    } else if f == 5 {
        'f'
    } else if f == 6 {
        'g'
    } else {
        'h'
    }
}

pub open spec fn rank_char(r: u8) -> char {
    if r == 0 {
        '1'
    } else if r == 1 {
        '2'
    } else if r == 2 {
        '3'
    } else if r == 3 {
        '4'
    } else if r == 4 {
        '5'
    } else if r == 5 {
        '6'
    } else if r == 6 {
        '7'
    } else {
        '8'
    }
}

pub open spec fn promotion_char(p: Promotion) -> char {
    match p {
        Promotion::Knight => 'n',
        Promotion::Bishop => 'b',
        Promotion::Rook => 'r',
        Promotion::Queen => 'q',
    }
}

/// Long algebraic notation of a square, e.g. "e2".
pub open spec fn square_text(s: Square) -> Seq<char> {
    seq![file_char(s.file), rank_char(s.rank)]
}

/// Long algebraic notation of a move, e.g. "e2e4" or "e7e8q".
pub open spec fn move_text(m: BookMove) -> Seq<char> {
    match m.promotion {
        None => square_text(m.source) + square_text(m.dest),
        Some(p) => square_text(m.source) + square_text(m.dest) + seq![promotion_char(p)],
    }
}

fn file_to_char(f: u8) -> (c: char)
    ensures
        c == file_char(f),
{
    if f == 0 {
        'a'
    } else if f == 1 {
        'b'
    } else if f == 2 {
        'c'
    } else if f == 3 {
        'd'
    } else if f == 4 {
        'e'
    } else if f == 5 {
        'f'
    } else if f == 6 {
        'g'
    } else {
        'h'
    }
}

fn rank_to_char(r: u8) -> (c: char)
    ensures
        c == rank_char(r),
{
    if r == 0 {
        '1'
    } else if r == 1 {
        '2'
    } else if r == 2 {
        '3'
    } else if r == 3 {
        '4'
    } else if r == 4 {
        '5'
    } else if r == 5 {
        '6'
    } else if r == 6 {
        '7'
    } else {
        '8'
    }
}

fn push_square(s: &mut String, sq: Square)
    ensures
        final(s)@ == old(s)@ + square_text(sq),
{
    push_char(s, file_to_char(sq.file));
    push_char(s, rank_to_char(sq.rank));
    assert(s@ =~= old(s)@ + square_text(sq));
}

impl BookMove {
    /// The move in long algebraic notation.
    pub fn to_text(&self) -> (r: String)
        ensures
            r@ == move_text(*self),
    {
        let mut s = String::new();
        push_square(&mut s, self.source);
        push_square(&mut s, self.dest);
        match self.promotion {
            None => {},
            Some(p) => {
                let c = match p {
                    Promotion::Knight => 'n',
                    Promotion::Bishop => 'b',
                    Promotion::Rook => 'r',
                    Promotion::Queen => 'q',
                };
                push_char(&mut s, c);
            },
        }
        assert(s@ =~= move_text(*self));
        s
    }
}

} // verus!
