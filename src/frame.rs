use vstd::prelude::*;
use crate::coord::Coordinate;

verus! {

/// First byte of a frame that carries a key press.
pub const TAG_PRESS: u8 = 0x50;

/// First byte of a frame that carries a key release.
pub const TAG_RELEASE: u8 = 0x52;

/// Last byte of every frame (a line feed).
pub const TERMINATOR: u8 = 0x0a;

/// One debounced edge of one key.
#[derive(Clone, Copy, Debug, PartialEq, Eq, Structural)]
pub struct Transition {
    pub coord: Coordinate,
    pub pressed: bool,
}

/// Why four bytes are not a frame.
#[derive(Clone, Copy, Debug, PartialEq, Eq, Structural)]
pub enum FrameError {
    /// The first byte is no tag, or the last byte is not the terminator.
    Malformed,
}

/// Four bytes form a frame: a known tag first and the terminator last.
pub open spec fn is_frame(b: Seq<u8>) -> bool {
    &&& b.len() == 4
    &&& (b[0] == TAG_PRESS || b[0] == TAG_RELEASE)
    &&& b[3] == TERMINATOR
}

/// The frame that carries `t`.
pub open spec fn encode_spec(t: Transition) -> Seq<u8> {
    seq![if t.pressed { TAG_PRESS } else { TAG_RELEASE }, t.coord.row, t.coord.col, TERMINATOR]
}

/// What four bytes decode to.
pub open spec fn decode_spec(b: Seq<u8>) -> Result<Transition, FrameError> {
    if is_frame(b) {
        Ok(Transition { coord: Coordinate { row: b[1], col: b[2] }, pressed: b[0] == TAG_PRESS })
    } else {
        Err(FrameError::Malformed)
    }
}

/// Frames a transition for the link: tag, row, column, terminator.
pub fn encode(t: Transition) -> (r: [u8; 4])
    ensures
        r@ == encode_spec(t),
{
    let tag: u8 = if t.pressed { TAG_PRESS } else { TAG_RELEASE };
    let r: [u8; 4] = [tag, t.coord.row, t.coord.col, TERMINATOR];
    assert(r@ =~= encode_spec(t));
    r
}

/// Reads a frame off the link. Succeeds exactly when the first byte is a tag
/// and the last is the terminator; the coordinate is taken as sent.
pub fn decode(b: [u8; 4]) -> (r: Result<Transition, FrameError>)
    ensures
        r == decode_spec(b@),
        r is Err <==> !is_frame(b@),
{
    if (b[0] == TAG_PRESS || b[0] == TAG_RELEASE) && b[3] == TERMINATOR {
        Ok(Transition { coord: Coordinate { row: b[1], col: b[2] }, pressed: b[0] == TAG_PRESS })
    } else {
        Err(FrameError::Malformed)
    }
}

/// Decoding an encoded transition gives the transition back.
pub proof fn lemma_round_trip(t: Transition)
    ensures
        decode_spec(encode_spec(t)) == Ok::<Transition, FrameError>(t),
{
}

/// Distinct transitions are framed differently.
pub proof fn lemma_encode_injective(t: Transition, u: Transition)
    requires
        encode_spec(t) == encode_spec(u),
    ensures
        t == u,
{
    lemma_round_trip(t);
    lemma_round_trip(u);
}


} // verus!
