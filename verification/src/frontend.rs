//! Types shared with the front-end adapters: the program image container
//! and the small vocabulary the window and input adapters hand around.
//! Reading an image from storage, drawing a window and polling events stay
//! outside the library.

use vstd::prelude::*;

verus! {

/// A program image: raw instruction and data bytes, zero-padded to the
/// largest size that fits above the load origin.
pub struct ROM {
    /// Image bytes, zero-padded.
    pub rom: [u8; 3584],
    /// Number of meaningful bytes at the start of `rom`.
    pub size: usize,
}

impl ROM {
    /// An image holding the given bytes; anything past the largest image
    /// size is dropped.
    pub fn from_bytes(data: &[u8]) -> (r: ROM)
        ensures
            r.size == if data@.len() <= 3584 {
                data@.len() as int
            } else {
                3584
            },
            forall|k: int| 0 <= k < r.size ==> r.rom@[k] == data@[k],
            forall|k: int| r.size <= k < 3584 ==> r.rom@[k] == 0u8,
    {
        let n = if data.len() > 3584 {
            3584
        } else {
            data.len()
        };
        let mut rom = [0u8; 3584];
        let mut k: usize = 0;
        while k < n
            invariant
                k <= n,
                n <= 3584,
                n <= data@.len(),
                forall|j: int| 0 <= j < k ==> rom@[j] == data@[j],
                forall|j: int| k <= j < 3584 ==> rom@[j] == 0u8,
            decreases n - k,
        {
            rom[k] = data[k];
            k += 1;
        }
        ROM { rom, size: n }
    }
}

/// Which of the two front-end windows is meant.
pub enum WindowType {
    Display,
    Keypad,
}

/// What the window event stream asks of the driving loop.
#[derive(PartialEq, Eq, Structural)]
pub enum WindowAction {
    Close,
}

} // verus!
