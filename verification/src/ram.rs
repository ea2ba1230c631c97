//! The 4KB address space of the machine.
//!
//! Bytes 0..80 hold the built-in hexadecimal font, five bytes per glyph in
//! digit order 0-F; program bytes are loaded from offset 512 on; everything
//! else starts zeroed.

use vstd::prelude::*;

verus! {

pub const MEMORY_SIZE: usize = 4096;

pub const PROGRAM_START: usize = 512;

pub const FONT_BYTES: usize = 80;

/// The canonical font table: sixteen 5-byte glyphs for the digits 0-F,
/// stored from address 0 upward.
pub open spec fn font_table() -> Seq<u8> {
    seq![
        0xF0u8, 0x90, 0x90, 0x90, 0xF0, // 0
        0x20, 0x60, 0x20, 0x20, 0x70, // 1
        0xF0, 0x10, 0xF0, 0x80, 0xF0, // 2
        0xF0, 0x10, 0xF0, 0x10, 0xF0, // 3
        0x90, 0x90, 0xF0, 0x10, 0x10, // 4
        0xF0, 0x80, 0xF0, 0x10, 0xF0, // 5
        0xF0, 0x80, 0xF0, 0x90, 0xF0, // 6
        0xF0, 0x10, 0x20, 0x40, 0x40, // 7
        0xF0, 0x90, 0xF0, 0x90, 0xF0, // 8
        0xF0, 0x90, 0xF0, 0x10, 0xF0, // 9
        0xF0, 0x90, 0xF0, 0x90, 0x90, // A
        0xE0, 0x90, 0xE0, 0x90, 0xE0, // B
        0xF0, 0x80, 0x80, 0x80, 0xF0, // C
        0xE0, 0x90, 0x90, 0x90, 0xE0, // D
        0xF0, 0x80, 0xF0, 0x80, 0xF0, // E
        0xF0, 0x80, 0xF0, 0x80, 0x80, // F
    ]
}

/// The 5-byte glyph for digit `d`.
pub open spec fn glyph(d: int) -> Seq<u8>
    recommends
        0 <= d < 16,
{
    font_table().subrange(5 * d, 5 * d + 5)
}

/// The fixed-size byte memory of the machine, addressable 0..4096.
#[derive(Clone, Copy)]
pub struct Ram {
    buffer: [u8; 4096],
}

impl View for Ram {
    type V = Seq<u8>;

    closed spec fn view(&self) -> Seq<u8> {
        self.buffer@
    }
}

/// The font sprites as a byte array, equal to the canonical table.
fn font_sprites() -> (t: [u8; 80])
    ensures
        t@ == font_table(),
{
    let t: [u8; 80] = [
        0xF0, 0x90, 0x90, 0x90, 0xF0, // 0
        0x20, 0x60, 0x20, 0x20, 0x70, // 1
        0xF0, 0x10, 0xF0, 0x80, 0xF0, // 2
        0xF0, 0x10, 0xF0, 0x10, 0xF0, // 3
        0x90, 0x90, 0xF0, 0x10, 0x10, // 4
        0xF0, 0x80, 0xF0, 0x10, 0xF0, // 5
        0xF0, 0x80, 0xF0, 0x90, 0xF0, // 6
        0xF0, 0x10, 0x20, 0x40, 0x40, // 7
        0xF0, 0x90, 0xF0, 0x90, 0xF0, // 8
        0xF0, 0x90, 0xF0, 0x10, 0xF0, // 9
        0xF0, 0x90, 0xF0, 0x90, 0x90, // A
        0xE0, 0x90, 0xE0, 0x90, 0xE0, // B
        0xF0, 0x80, 0x80, 0x80, 0xF0, // C
        0xE0, 0x90, 0x90, 0x90, 0xE0, // D
        0xF0, 0x80, 0xF0, 0x80, 0xF0, // E
        0xF0, 0x80, 0xF0, 0x80, 0x80, // F
    ];
    proof {
        assert(t@ =~= font_table());
    }
    t
}

impl Ram {
    /// Every memory value spans the whole address space.
    pub proof fn lemma_len(&self)
        ensures
            self@.len() == MEMORY_SIZE,
    {
    }

    /// Fresh memory: font in bytes 0..80, the program from byte 512 on,
    /// zero everywhere else.
    pub fn new(program: &[u8]) -> (r: Ram)
        requires
            program@.len() <= MEMORY_SIZE - PROGRAM_START,
        ensures
            r@.len() == MEMORY_SIZE,
            r@.subrange(0, FONT_BYTES as int) == font_table(),
            forall|k: int| FONT_BYTES <= k < PROGRAM_START ==> r@[k] == 0,
            r@.subrange(PROGRAM_START as int, PROGRAM_START + program@.len()) == program@,
            forall|k: int| PROGRAM_START + program@.len() <= k < MEMORY_SIZE ==> r@[k] == 0,
    {
        let mut buffer: [u8; 4096] = [0; 4096];

        let mut i: usize = 0;
        while i < program.len()
            invariant
                i <= program@.len() <= MEMORY_SIZE - PROGRAM_START,
                buffer@.len() == MEMORY_SIZE,
                forall|k: int| 0 <= k < PROGRAM_START ==> buffer@[k] == 0,
                forall|k: int| 0 <= k < i ==> buffer@[PROGRAM_START + k] == program@[k],
                forall|k: int| PROGRAM_START + i <= k < MEMORY_SIZE ==> buffer@[k] == 0,
            decreases program@.len() - i,
        {
            buffer[PROGRAM_START + i] = program[i];
            i += 1;
        }

        let font = font_sprites();
        let mut j: usize = 0;
        while j < FONT_BYTES
            invariant
                j <= FONT_BYTES,
                program@.len() <= MEMORY_SIZE - PROGRAM_START,
                buffer@.len() == MEMORY_SIZE,
                forall|k: int| 0 <= k < j ==> buffer@[k] == font_table()[k],
                forall|k: int| j <= k < PROGRAM_START ==> buffer@[k] == 0,
                forall|k: int| 0 <= k < program@.len()
                    ==> buffer@[PROGRAM_START + k] == program@[k],
                forall|k: int| PROGRAM_START + program@.len() <= k < MEMORY_SIZE
                    ==> buffer@[k] == 0,
                font@ == font_table(),
            decreases FONT_BYTES - j,
        {
            buffer[j] = font[j];
            j += 1;
        }

        let r = Ram { buffer };
        proof {
            assert(r@.subrange(0, FONT_BYTES as int) =~= font_table());
            assert(r@.subrange(PROGRAM_START as int, PROGRAM_START + program@.len())
                =~= program@);
        }
        r
    }

    /// The size of the address space.
    pub fn len(&self) -> (n: usize)
        ensures
            n == self@.len(),
    {
        self.buffer.len()
    }

    /// The byte at `index`.
    pub fn get(&self, index: usize) -> (b: u8)
        requires
            index < self@.len(),
        ensures
            b == self@[index as int],
    {
        self.buffer[index]
    }

    /// The big-endian 16-bit word formed by the bytes at `index` and
    /// `index + 1`.
    pub fn get_u16(&self, index: usize) -> (w: u16)
        requires
            index + 1 < self@.len(),
        ensures
            w == self@[index as int] * 256 + self@[index + 1],
    {
        let first = self.buffer[index] as u16;
        let second = self.buffer[index + 1] as u16;
        first * 256 + second
    }

    /// Overwrite the byte at `index`.
    pub fn set(&mut self, index: usize, value: u8)
        requires
            index < old(self)@.len(),
        ensures
            final(self)@ == old(self)@.update(index as int, value),
    {
        self.buffer[index] = value;
    }
}

} // verus!
