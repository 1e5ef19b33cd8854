//! NDI sources and received video frames, as plain values.
use vstd::prelude::*;

pub mod dll;

verus! {

/// A discovered NDI source.
#[derive(Clone, Debug)]
pub struct Source {
    pub name: String,
    pub url: String,
}

/// The description of one received video frame: its dimensions as the
/// receiver reports them, and whether it carries pixel data.
pub struct VideoFrame {
    /// Horizontal resolution, as reported.
    pub xres: i32,
    /// Vertical resolution, as reported.
    pub yres: i32,
    /// Bytes per row (the stride), as reported.
    pub line_stride_or_size: i32,
    /// Whether the frame's data pointer is non-null.
    pub has_data: bool,
}

/// The number of bytes of a frame's pixel data: `stride * height` when the
/// frame has data and the product fits in a `usize`, else nothing.
pub open spec fn frame_data_len(has_data: bool, stride: u32, height: u32) -> int {
    let n = stride as int * height as int;
    if has_data && n <= usize::MAX as int {
        n
    } else {
        0
    }
}

impl VideoFrame {
    pub fn width(&self) -> (r: u32)
        ensures
            r == self.xres as u32,
    {
        self.xres as u32
    }

    pub fn height(&self) -> (r: u32)
        ensures
            r == self.yres as u32,
    {
        self.yres as u32
    }

    pub fn stride(&self) -> (r: u32)
        ensures
            r == self.line_stride_or_size as u32,
    {
        self.line_stride_or_size as u32
    }

    /// The number of bytes of pixel data to read: none when the frame has no
    /// data or its `stride * height` does not fit in a `usize`.
    pub fn data_len(&self) -> (r: usize)
        ensures
            r as int == frame_data_len(
                self.has_data,
                self.line_stride_or_size as u32,
                self.yres as u32,
            ),
    {
        if !self.has_data {
            return 0;
        }
        match (self.stride() as usize).checked_mul(self.height() as usize) {
            Some(n) => n,
            None => 0,
        }
    }
}

} // verus!
