//! Text with numbers in it whose digits are left to whoever prints it.

use crate::binary64::{Binary64, Number};
use crate::text;
use crate::text::decimal;
use vstd::prelude::*;

verus! {

/// One element of a report: a character, or a number yet to be written out.
pub enum Glyph {
    Char(char),
    Value(Number),
}

/// A stretch of a report.
#[derive(Debug, Clone)]
pub enum Piece {
    /// Text as it stands.
    Text(String),
    /// A number, to be printed in the shortest decimal form that reads back as
    /// the same number.
    Value(Binary64),
}

/// A character, as a glyph.
pub open spec fn glyph(c: char) -> Glyph {
    Glyph::Char(c)
}

/// Text, as glyphs.
pub open spec fn plain(s: Seq<char>) -> Seq<Glyph> {
    Seq::new(s.len(), |i: int| glyph(s[i]))
}

/// A number, as a glyph.
pub open spec fn value(x: Number) -> Seq<Glyph> {
    seq![Glyph::Value(x)]
}

/// A count, as glyphs.
pub open spec fn count(n: nat) -> Seq<Glyph> {
    plain(text::decimal_text(n))
}

impl View for Piece {
    type V = Seq<Glyph>;

    open spec fn view(&self) -> Seq<Glyph> {
        match self {
            Piece::Text(s) => plain(s@),
            Piece::Value(x) => value(x@),
        }
    }
}

/// Pieces one after the other.
pub open spec fn joined(pieces: Seq<Piece>) -> Seq<Glyph>
    decreases pieces.len(),
{
    if pieces.len() == 0 {
        Seq::empty()
    } else {
        joined(pieces.drop_last()) + pieces.last()@
    }
}

/// A report under construction, or done.
#[derive(Debug, Clone)]
pub struct Report {
    pub pieces: Vec<Piece>,
}

impl View for Report {
    type V = Seq<Glyph>;

    open spec fn view(&self) -> Seq<Glyph> {
        joined(self.pieces@)
    }
}

impl Report {
    /// An empty report.
    pub fn new() -> (r: Report)
        ensures
            r@ == Seq::<Glyph>::empty(),
    {
        Report { pieces: Vec::new() }
    }

    fn push(&mut self, piece: Piece)
        ensures
            final(self)@ == old(self)@ + piece@,
    {
        let ghost before = self.pieces@;
        self.pieces.push(piece);
        assert(self.pieces@.drop_last() =~= before);
    }

    /// Appends text.
    pub fn text(&mut self, s: &str)
        ensures
            final(self)@ == old(self)@ + plain(s@),
    {
        self.push(Piece::Text(s.to_owned()));
    }

    /// Appends a number.
    pub fn value(&mut self, x: Binary64)
        ensures
            final(self)@ == old(self)@ + value(x@),
    {
        self.push(Piece::Value(x));
    }

    /// Appends a count.
    pub fn count(&mut self, n: u64)
        ensures
            final(self)@ == old(self)@ + count(n as nat),
    {
        self.push(Piece::Text(decimal(n)));
    }

    /// Appends 1 for true and 0 for false.
    pub fn flag(&mut self, b: bool)
        ensures
            final(self)@ == old(self)@ + count(if b {
                1
            } else {
                0
            }),
    {
        self.count(
            if b {
                1
            } else {
                0
            },
        );
    }
}

} // verus!
