use vstd::prelude::*;
use crate::frame::{
    decode, decode_spec, encode_spec, is_frame, FrameError, Transition, TAG_PRESS, TAG_RELEASE,
    TERMINATOR,
};

verus! {

/// The window after `b` arrives: the oldest byte drops out, `b` goes last.
pub open spec fn shift(w: Seq<u8>, b: u8) -> Seq<u8> {
    w.drop_first().push(b)
}

/// The window after every byte of `s` has arrived, in order.
pub open spec fn window_after(w: Seq<u8>, s: Seq<u8>) -> Seq<u8>
    decreases s.len(),
{
    if s.len() == 0 {
        w
    } else {
        shift(window_after(w, s.drop_last()), s.last())
    }
}

/// What a window yields once a byte has been inserted: its transition when
/// it holds a frame, nothing otherwise.
pub open spec fn yield_of(w: Seq<u8>) -> Option<Transition> {
    match decode_spec(w) {
        Ok(t) => Some(t),
        Err(_) => None,
    }
}

/// The transitions that the receiver yields, in order, while `s` arrives
/// byte by byte into the window `w`.
pub open spec fn yielded(w: Seq<u8>, s: Seq<u8>) -> Seq<Transition>
    decreases s.len(),
{
    if s.len() == 0 {
        Seq::empty()
    } else {
        let earlier = yielded(w, s.drop_last());
        match yield_of(window_after(w, s)) {
            Some(t) => earlier.push(t),
            None => earlier,
        }
    }
}

/// Reassembles frames from the link one byte at a time, in a window of four
/// bytes that slides over the stream.
pub struct LinkReceiver {
    window: [u8; 4],
}

impl View for LinkReceiver {
    type V = Seq<u8>;

    closed spec fn view(&self) -> Seq<u8> {
        self.window@
    }
}

impl LinkReceiver {
    /// A receiver whose window holds four zero bytes, which are no frame.
    pub fn new() -> (r: LinkReceiver)
        ensures
            r@ == seq![0u8, 0u8, 0u8, 0u8],
            !is_frame(r@),
    {
        let r = LinkReceiver { window: [0u8, 0u8, 0u8, 0u8] };
        assert(r@ =~= seq![0u8, 0u8, 0u8, 0u8]);
        r
    }

    /// The bytes in the window, oldest first.
    pub fn window(&self) -> (r: [u8; 4])
        ensures
            r@ == self@,
    {
        self.window
    }

    /// Slides `b` into the window and decodes it. Yields the transition of a
    /// frame that the window now holds, and nothing otherwise; the window is
    /// not cleared after a frame.
    pub fn push_byte(&mut self, b: u8) -> (r: Option<Transition>)
        ensures
            final(self)@ == shift(old(self)@, b),
            final(self)@.len() == 4,
            r == yield_of(final(self)@),
            r is None <==> !is_frame(final(self)@),
    {
        let w = self.window;
        self.window = [w[1], w[2], w[3], b];
        assert(self@ =~= shift(old(self)@, b));
        match decode(self.window) {
            Ok(t) => Some(t),
            Err(_) => None,
        }
    }
}

/// Four bytes without a tag first or the terminator last decode as
/// malformed, and a window holding them yields nothing.
pub proof fn lemma_malformed_not_yielded(b: Seq<u8>)
    requires
        b.len() == 4,
        !(b[0] == TAG_PRESS || b[0] == TAG_RELEASE) || b[3] != TERMINATOR,
    ensures
        decode_spec(b) == Err::<Transition, FrameError>(FrameError::Malformed),
        yield_of(b) == None::<Transition>,
{
}

/// However many bytes arrive, the window holds exactly four.
pub proof fn lemma_window_bounded(w: Seq<u8>, s: Seq<u8>)
    requires
        w.len() == 4,
    ensures
        window_after(w, s).len() == 4,
    decreases s.len(),
{
    if s.len() > 0 {
        lemma_window_bounded(w, s.drop_last());
    }
}

/// Once four bytes have arrived the window holds the last four of them.
pub proof fn lemma_window_is_suffix(w: Seq<u8>, s: Seq<u8>)
    requires
        w.len() == 4,
        s.len() >= 4,
    ensures
        window_after(w, s) == s.subrange(s.len() - 4, s.len() as int),
    decreases s.len(),
{
    let p = s.drop_last();
    lemma_window_bounded(w, p);
    if s.len() == 4 {
        lemma_suffix_from_four(w, s);
    } else {
        lemma_window_is_suffix(w, p);
        assert(shift(window_after(w, p), s.last()) =~= s.subrange(s.len() - 4, s.len() as int));
    }
}

proof fn lemma_suffix_from_four(w: Seq<u8>, s: Seq<u8>)
    requires
        w.len() == 4,
        s.len() == 4,
    ensures
        window_after(w, s) == s,
{
    let s1 = s.take(1);
    let s2 = s.take(2);
    let s3 = s.take(3);
    let e = Seq::<u8>::empty();
    assert(s1.drop_last() =~= e);
    assert(s2.drop_last() =~= s1);
    assert(s3.drop_last() =~= s2);
    assert(s.drop_last() =~= s3);
    assert(window_after(w, e) == w);
    let w1 = shift(w, s[0]);
    let w2 = shift(w1, s[1]);
    let w3 = shift(w2, s[2]);
    assert(window_after(w, s1) == w1);
    assert(window_after(w, s2) == w2);
    assert(window_after(w, s3) == w3);
    assert(window_after(w, s) == shift(w3, s[3]));
    assert(shift(w3, s[3]) =~= s);
}

/// A stream that carries one frame amid noise before and after it yields
/// exactly that frame's transition, whatever the noise holds, provided no
/// other window that the stream passes through is itself a frame.
pub proof fn lemma_single_frame(w: Seq<u8>, before: Seq<u8>, t: Transition, after: Seq<u8>)
    requires
        w.len() == 4,
        forall|k: int|
            1 <= k <= before.len() + 4 + after.len() && k != before.len() + 4 ==> !is_frame(
                #[trigger] window_after(w, (before + encode_spec(t) + after).take(k)),
            ),
    ensures
        yielded(w, before + encode_spec(t) + after) == seq![t],
{
    let s = before + encode_spec(t) + after;
    lemma_yielded_prefix(w, before, t, after, s.len() as int);
    assert(s.take(s.len() as int) =~= s);
}

proof fn lemma_yielded_prefix(w: Seq<u8>, before: Seq<u8>, t: Transition, after: Seq<u8>, k: int)
    requires
        w.len() == 4,
        0 <= k <= before.len() + 4 + after.len(),
        forall|k: int|
            1 <= k <= before.len() + 4 + after.len() && k != before.len() + 4 ==> !is_frame(
                #[trigger] window_after(w, (before + encode_spec(t) + after).take(k)),
            ),
    ensures
        yielded(w, (before + encode_spec(t) + after).take(k)) == (if k < before.len() + 4 {
            Seq::<Transition>::empty()
        } else {
            seq![t]
        }),
    decreases k,
{
    let s = before + encode_spec(t) + after;
    let n = before.len() + 4;
    if k > 0 {
        lemma_yielded_prefix(w, before, t, after, k - 1);
        assert(s.take(k).drop_last() =~= s.take(k - 1));
        if k == n {
            lemma_window_is_suffix(w, s.take(k));
            assert(s.take(k).subrange(k - 4, k) =~= encode_spec(t));
            crate::frame::lemma_round_trip(t);
        }
    } else {
        assert(s.take(k) =~= Seq::<u8>::empty());
    }
}

} // verus!
