//! The frame buffer of the fallback that copies the whole screen each time.

use vstd::prelude::*;

verus! {

/// The size of the screen could not be found out.
#[derive(Clone, Copy, Debug, PartialEq, Eq, Structural)]
pub struct NoScreen {
    pub width: u32,
    pub height: u32,
}

/// The frame buffer: four bytes a pixel, blue, green, red, and one unused.
#[derive(Debug)]
pub struct GdiCapture {
    pub width: u32,
    pub height: u32,
    pub buf: Vec<u8>,
}

impl GdiCapture {
    /// The frame buffer holds four bytes for each pixel of a screen that has some.
    pub open spec fn wf(self) -> bool {
        &&& self.width > 0
        &&& self.height > 0
        &&& self.buf@.len() == 4 * (self.width * self.height)
    }

    /// A black frame buffer for a screen of this size; none where the screen has no pixel.
    pub fn new(width: u32, height: u32) -> (r: Result<GdiCapture, NoScreen>)
        requires
            4 * (width * height) <= u32::MAX,
        ensures
            match r {
                Ok(c) => {
                    &&& width > 0
                    &&& height > 0
                    &&& c.wf()
                    &&& c.width == width
                    &&& c.height == height
                    &&& c.buf@ == Seq::new((4 * (width * height)) as nat, |k: int| 0u8)
                },
                Err(e) => (width == 0 || height == 0) && e == (NoScreen { width, height }),
            },
    {
        if width == 0 || height == 0 {
            return Err(NoScreen { width, height });
        }
        proof {
            assert(0 <= width * height) by (nonlinear_arith);
        }
        let size: u32 = width * height * 4;
        let mut buf: Vec<u8> = Vec::new();
        buf.resize(size as usize, 0);
        assert(buf@ =~= Seq::new((4 * (width * height)) as nat, |k: int| 0u8));
        Ok(GdiCapture { width, height, buf })
    }
}

} // verus!
