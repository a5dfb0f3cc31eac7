use vstd::prelude::*;

verus! {

/// The shape of a tile that enters the board.
#[derive(Debug, Clone, Copy, PartialEq, Eq, Structural)]
pub enum TileShape {
    Square,
    Line,
    Diagonal,
}

/// A source of the tiles that enter the board, one per call.
pub trait TileProducer: Sized {
    /// The shape that the next call hands out.
    spec fn upcoming(&self) -> TileShape;

    /// The producer after it handed out [`TileProducer::upcoming`].
    spec fn advanced(&self) -> Self;

    fn generate_tile(&mut self) -> (r: TileShape)
        ensures
            r == old(self).upcoming(),
            *final(self) == old(self).advanced(),
    ;
}

/// An endless sequence of the shapes that a producer hands out.
pub struct TileIterator<P> {
    producer: P,
}

impl<P: TileProducer> TileIterator<P> {
    pub closed spec fn producer(&self) -> P {
        self.producer
    }

    pub fn new(producer: P) -> (r: Self)
        ensures
            r.producer() == producer,
    {
        Self { producer }
    }

    /// The next shape; the sequence never ends.
    pub fn next(&mut self) -> (r: Option<TileShape>)
        ensures
            r == Some(old(self).producer().upcoming()),
            final(self).producer() == old(self).producer().advanced(),
    {
        Some(self.producer.generate_tile())
    }
}

/// Hands out the same shape on every call.
pub struct ConstantProducer {
    t: TileShape,
}

impl ConstantProducer {
    pub closed spec fn shape(&self) -> TileShape {
        self.t
    }

    pub fn new(t: TileShape) -> (r: Self)
        ensures
            r.shape() == t,
    {
        Self { t }
    }
}

impl TileProducer for ConstantProducer {
    open spec fn upcoming(&self) -> TileShape {
        self.shape()
    }

    open spec fn advanced(&self) -> Self {
        *self
    }

    fn generate_tile(&mut self) -> (r: TileShape) {
        self.t
    }
}

/// The shape that follows `t` in the cycle square, line, diagonal.
pub open spec fn shape_after(t: TileShape) -> TileShape {
    match t {
        TileShape::Square => TileShape::Line,
        TileShape::Line => TileShape::Diagonal,
        TileShape::Diagonal => TileShape::Square,
    }
}

/// Cycles through square, line and diagonal, starting with the square.
pub struct LoopingProducer {
    t: TileShape,
}

impl LoopingProducer {
    pub closed spec fn shape(&self) -> TileShape {
        self.t
    }

    pub fn new() -> (r: Self)
        ensures
            r.shape() == TileShape::Square,
    {
        Self { t: TileShape::Square }
    }

    fn advance(&mut self) -> (r: TileShape)
        ensures
            r == old(self).shape(),
            final(self).shape() == shape_after(old(self).shape()),
    {
        let current = self.t;
        self.t = match current {
            TileShape::Square => TileShape::Line,
            TileShape::Line => TileShape::Diagonal,
            TileShape::Diagonal => TileShape::Square,
        };
        current
    }
}

/// A looping producer hands out the shape that follows the one it handed out
/// last, and comes back to the same shape after three draws.
pub proof fn lemma_looping_cycle(p: LoopingProducer)
    ensures
        p.advanced().shape() == shape_after(p.shape()),
        p.advanced().advanced().advanced().shape() == p.shape(),
        p.advanced().upcoming() != p.upcoming(),
{
}

impl Default for LoopingProducer {
    fn default() -> (r: Self)
        ensures
            r.shape() == TileShape::Square,
    {
        Self::new()
    }
}

impl TileProducer for LoopingProducer {
    open spec fn upcoming(&self) -> TileShape {
        self.shape()
    }

    closed spec fn advanced(&self) -> Self {
        LoopingProducer { t: shape_after(self.shape()) }
    }

    fn generate_tile(&mut self) -> (r: TileShape) {
        self.advance()
    }
}

} // verus!
