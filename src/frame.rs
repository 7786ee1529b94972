use vstd::prelude::*;

verus! {

/// Status byte of a reply: success, or nothing found.
pub const STATUS_OK: u8 = 0;

/// Status byte of a reply: a record was found and follows.
pub const STATUS_FOUND: u8 = 1;

/// Status byte of a reply: the server failed (the signed byte -1).
pub const STATUS_ERROR: u8 = 0xFF;

/// The content of one framed message: a leading opcode or status byte, absent when the
/// message is empty, and the length-prefixed buffers that follow it.
#[derive(Clone, Debug)]
pub struct Frame {
    pub code: Option<u8>,
    pub buffers: Vec<Vec<u8>>,
}

/// The mathematical content of a frame.
pub ghost struct FrameView {
    pub code: Option<u8>,
    pub buffers: Seq<Seq<u8>>,
}

/// The mathematical content of a list of buffers.
pub open spec fn buffers_view(b: Seq<Vec<u8>>) -> Seq<Seq<u8>> {
    b.map_values(|x: Vec<u8>| x@)
}

impl View for Frame {
    type V = FrameView;

    open spec fn view(&self) -> FrameView {
        FrameView { code: self.code, buffers: buffers_view(self.buffers@) }
    }
}

/// A frame that carries only a status byte.
pub open spec fn status_frame(status: u8) -> FrameView {
    FrameView { code: Some(status), buffers: Seq::empty() }
}

impl Frame {
    /// A frame with `code` and no buffers.
    pub fn with_code(code: u8) -> (r: Frame)
        ensures
            r@ == status_frame(code),
    {
        let r = Frame { code: Some(code), buffers: Vec::new() };
        assert(r@.buffers =~= Seq::<Seq<u8>>::empty());
        r
    }

    /// Appends a copy of `b` as the last buffer.
    pub fn push_buffer(&mut self, b: &[u8])
        ensures
            final(self)@ == (FrameView { buffers: old(self)@.buffers.push(b@), ..old(self)@ }),
    {
        let mut v: Vec<u8> = Vec::new();
        crate::record::push_all(&mut v, b);
        self.buffers.push(v);
        assert(final(self)@.buffers =~= old(self)@.buffers.push(b@));
    }
}

} // verus!
