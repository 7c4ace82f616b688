//! The hosted display model: a 1-bit emulated framebuffer and the 32-bit
//! native pixel buffer rendered from it.
//!
//! The emulated buffer packs one monochrome row into `WIDTH_WORDS` words of
//! 32 pixels each; rendering expands every bit into a native pixel, dark for
//! a set bit and light for a clear one. Pushing the native buffer to the
//! host window is plain output and stays outside this crate.

use vstd::prelude::*;
use vstd::pervasive::VecAdditionalExecFns;

verus! {

/// Screen width in pixels.
pub const WIDTH: usize = 336;

/// Screen height in rows.
pub const HEIGHT: usize = 536;

/// Width of one emulated row in 32-bit words.
pub const WIDTH_WORDS: usize = 11;

/// Length of the emulated framebuffer in words.
pub const FB_SIZE: usize = WIDTH_WORDS * HEIGHT;

/// Length of the native pixel buffer in words.
pub const NATIVE_SIZE: usize = WIDTH * HEIGHT;

/// The colour of a set emulated bit.
pub const DARK_COLOUR: u32 = 0xB5B5AD;

/// The colour of a clear emulated bit.
pub const LIGHT_COLOUR: u32 = 0x1B1B19;

/// Whether bit `b` of `word` is set.
pub open spec fn bit_set(word: u32, b: u32) -> bool {
    word & (1u32 << b) != 0
}

/// The native pixel at flat index `i`: the pixel's row holds `WIDTH_WORDS`
/// emulated words, its column selects the word and the bit within it, and a
/// set bit renders dark.
pub open spec fn rendered(emu: Seq<u32>, i: int) -> u32 {
    let row = i / (WIDTH as int);
    let col = i % (WIDTH as int);
    if bit_set(emu[row * (WIDTH_WORDS as int) + col / 32], (col % 32) as u32) {
        DARK_COLOUR
    } else {
        LIGHT_COLOUR
    }
}

/// The hosted display: an emulated monochrome framebuffer drawn into by the
/// graphics code, and the native buffer the host window shows.
pub struct XousDisplay {
    native_buf: Vec<u32>,
    emulated_buf: Vec<u32>,
}

impl XousDisplay {
    /// The emulated framebuffer's contents.
    pub closed spec fn emulated(&self) -> Seq<u32> {
        self.emulated_buf@
    }

    /// The native pixel buffer's contents.
    pub closed spec fn native(&self) -> Seq<u32> {
        self.native_buf@
    }

    /// The display's invariant: both buffers have their fixed sizes.
    pub open spec fn wf(&self) -> bool {
        self.emulated().len() == FB_SIZE && self.native().len() == NATIVE_SIZE
    }

    /// A fresh display: the emulated framebuffer all clear, the native
    /// buffer filled dark as the host window first shows it.
    pub fn new() -> (r: XousDisplay)
        ensures
            r.wf(),
            forall|i: int| 0 <= i < FB_SIZE ==> r.emulated()[i] == 0u32,
            forall|i: int| 0 <= i < NATIVE_SIZE ==> r.native()[i] == DARK_COLOUR,
    {
        let mut native_buf: Vec<u32> = Vec::new();
        let mut i: usize = 0;
        while i < NATIVE_SIZE
            invariant
                native_buf@.len() == i,
                0 <= i <= NATIVE_SIZE,
                forall|j: int| 0 <= j < i ==> native_buf@[j] == DARK_COLOUR,
            decreases NATIVE_SIZE - i,
        {
            native_buf.push(DARK_COLOUR);
            i = i + 1;
        }
        let mut emulated_buf: Vec<u32> = Vec::new();
        let mut k: usize = 0;
        while k < FB_SIZE
            invariant
                emulated_buf@.len() == k,
                0 <= k <= FB_SIZE,
                forall|j: int| 0 <= j < k ==> emulated_buf@[j] == 0u32,
            decreases FB_SIZE - k,
        {
            emulated_buf.push(0u32);
            k = k + 1;
        }
        XousDisplay { native_buf, emulated_buf }
    }

    /// Replace the emulated framebuffer with the bitmap `bmp`.
    pub fn blit_screen(&mut self, bmp: &Vec<u32>)
        requires
            old(self).wf(),
            bmp@.len() == FB_SIZE,
        ensures
            final(self).wf(),
            final(self).emulated() == bmp@,
            final(self).native() == old(self).native(),
    {
        let mut i: usize = 0;
        while i < FB_SIZE
            invariant
                self.wf(),
                bmp@.len() == FB_SIZE,
                0 <= i <= FB_SIZE,
                forall|j: int| 0 <= j < i ==> self.emulated()[j] == bmp@[j],
                self.native() == old(self).native(),
            decreases FB_SIZE - i,
        {
            let v = bmp[i];
            self.emulated_buf.set(i, v);
            i = i + 1;
        }
        proof {
            assert(self.emulated() =~= bmp@);
        }
    }

    /// The drawing surface: the emulated framebuffer, one monochrome row
    /// per `WIDTH_WORDS` words.
    pub fn native_buffer(&self) -> (r: &Vec<u32>)
        ensures
            r@ == self.emulated(),
    {
        &self.emulated_buf
    }

    /// The rendered native pixels, for the shell to push to the host
    /// window.
    pub fn native_pixels(&self) -> (r: &Vec<u32>)
        ensures
            r@ == self.native(),
    {
        &self.native_buf
    }

    /// Render the emulated framebuffer into the native pixel buffer: every
    /// native pixel becomes dark where its emulated bit is set and light
    /// where it is clear. The shell then pushes the native buffer to the
    /// host window.
    pub fn redraw(&mut self)
        requires
            old(self).wf(),
        ensures
            final(self).wf(),
            final(self).emulated() == old(self).emulated(),
            forall|i: int|
                0 <= i < NATIVE_SIZE ==> final(self).native()[i] == rendered(
                    old(self).emulated(),
                    i,
                ),
    {
        self.emulated_to_native();
    }

    /// Expand each emulated bit into one native pixel word.
    fn emulated_to_native(&mut self)
        requires
            old(self).wf(),
        ensures
            final(self).wf(),
            final(self).emulated() == old(self).emulated(),
            forall|i: int|
                0 <= i < NATIVE_SIZE ==> final(self).native()[i] == rendered(
                    old(self).emulated(),
                    i,
                ),
    {
        let ghost emu = self.emulated();
        let mut row: usize = 0;
        while row < HEIGHT
            invariant
                self.wf(),
                self.emulated() == emu,
                0 <= row <= HEIGHT,
                forall|i: int| 0 <= i < row * WIDTH ==> self.native()[i] == rendered(emu, i),
            decreases HEIGHT - row,
        {
            let mut col: usize = 0;
            while col < WIDTH
                invariant
                    self.wf(),
                    self.emulated() == emu,
                    0 <= row < HEIGHT,
                    0 <= col <= WIDTH,
                    forall|i: int|
                        0 <= i < row * WIDTH + col ==> self.native()[i] == rendered(emu, i),
                decreases WIDTH - col,
            {
                let word = self.emulated_buf[row * WIDTH_WORDS + col / 32];
                let b: u32 = (col % 32) as u32;
                let pixel = if word & (1u32 << b) != 0 {
                    DARK_COLOUR
                } else {
                    LIGHT_COLOUR
                };
                let idx = row * WIDTH + col;
                self.native_buf.set(idx, pixel);
                proof {
                    vstd::arithmetic::div_mod::lemma_fundamental_div_mod_converse(
                        idx as int,
                        WIDTH as int,
                        row as int,
                        col as int,
                    );
                    assert(idx as int / (WIDTH as int) == row as int);
                    assert(idx as int % (WIDTH as int) == col as int);
                    assert(self.native()[idx as int] == rendered(emu, idx as int));
                }
                col = col + 1;
            }
            row = row + 1;
        }
    }
}

} // verus!
