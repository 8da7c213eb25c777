//! The video driver: a framebuffer obtained from the VideoCore.

use crate::armv6a::drivers::framebuffer::{FrameBuffer, Painter, Pixel};
use crate::armv6a::drivers::mailbox::MailBox;
use vstd::prelude::*;

verus! {

pub struct VideoDriver<'a> {
    pub buffer: FrameBuffer<'a>,
    mailbox: MailBox,
}

impl<'a> VideoDriver<'a> {
    /// The framebuffer the driver holds.
    pub closed spec fn frame(&self) -> FrameBuffer<'a> {
        self.buffer
    }

    /// A driver that holds no framebuffer yet.
    pub fn new() -> (v: VideoDriver<'a>)
        ensures
            v.frame().pitch() == 0,
            v.frame().rows() == 0,
            v.frame().columns() == 0,
            v.frame().pixels() == Seq::<Pixel>::empty(),
    {
        Self { buffer: FrameBuffer::unitialized(), mailbox: MailBox::new() }
    }

    /// Hands out the video driver if it is still `available`, and marks it
    /// taken: the driver is handed out at most once.
    pub fn take_from(available: &mut bool) -> (v: Option<VideoDriver<'a>>)
        ensures
            v.is_some() == *old(available),
            !*final(available),
            v matches Some(d) ==> d.frame().pixels() == Seq::<Pixel>::empty() && d.frame().columns() == 0
                && d.frame().rows() == 0 && d.frame().pitch() == 0,
    {
        if !*available {
            None
        } else {
            *available = false;
            Some(VideoDriver::new())
        }
    }

    /// A painter on the driver's framebuffer.
    pub fn painter(&'a mut self) -> (p: Painter<'a>)
        ensures
            p.pixels() == old(self).frame().pixels(),
            p.shape() == (old(self).frame().pitch(), old(self).frame().rows(), old(self).frame().columns()),
    {
        Painter::new(&mut self.buffer)
    }
}

impl<'a> Default for VideoDriver<'a> {
    fn default() -> (v: Self)
        ensures
            v.frame().pitch() == 0,
            v.frame().rows() == 0,
            v.frame().columns() == 0,
            v.frame().pixels() == Seq::<Pixel>::empty(),
    {
        Self::new()
    }
}

} // verus!
