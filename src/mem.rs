//! The 4096-byte address space, with its reserved low region.
use vstd::prelude::*;
use crate::error::C8Err;

verus! {

/// Bytes of addressable memory.
pub const MEMORY_SIZE: usize = 4096;

/// First address that programs may read or write; programs are loaded here.
pub const PROGRAM_START: usize = 512;

/// Address of the first font glyph.
pub const FONT_START: usize = 0x50;

/// Bytes per font glyph.
pub const GLYPH_SIZE: usize = 5;

/// The sixteen hexadecimal digit glyphs, five rows each.
pub open spec fn font() -> Seq<u8> {
    seq![
        0xF0u8, 0x90, 0x90, 0x90, 0xF0, // 0
        0x20, 0x60, 0x20, 0x20, 0x70, // 1
        0xF0, 0x10, 0xF0, 0x80, 0xF0, // 2
        0xF0, 0x10, 0xF0, 0x10, 0xF0, // 3
        0x90, 0x90, 0xF0, 0x10, 0x10, // 4
        0xF0, 0x80, 0xF0, 0x10, 0xF0, // 5
        0xF0, 0x80, 0xF0, 0x90, 0xF0, // 6
        0xF0, 0x10, 0x20, 0x40, 0x40, // 7
        0xF0, 0x90, 0xF0, 0x90, 0xF0, // 8
        0xF0, 0x90, 0xF0, 0x10, 0xF0, // 9
        0xF0, 0x90, 0xF0, 0x90, 0x90, // A
        0xE0, 0x90, 0xE0, 0x90, 0xE0, // B
        0xF0, 0x80, 0x80, 0x80, 0xF0, // C
        0xE0, 0x90, 0x90, 0x90, 0xE0, // D
        0xF0, 0x80, 0xF0, 0x80, 0xF0, // E
        0xF0, 0x80, 0xF0, 0x80, 0x80, // F
    ]
}

fn font_table() -> (r: Vec<u8>)
    ensures
        r@ == font(),
{
    let r = vec![
        0xF0u8, 0x90, 0x90, 0x90, 0xF0,
        0x20, 0x60, 0x20, 0x20, 0x70,
        0xF0, 0x10, 0xF0, 0x80, 0xF0,
        0xF0, 0x10, 0xF0, 0x10, 0xF0,
        0x90, 0x90, 0xF0, 0x10, 0x10,
        0xF0, 0x80, 0xF0, 0x10, 0xF0,
        0xF0, 0x80, 0xF0, 0x90, 0xF0,
        0xF0, 0x10, 0x20, 0x40, 0x40,
        0xF0, 0x90, 0xF0, 0x90, 0xF0,
        0xF0, 0x90, 0xF0, 0x10, 0xF0,
        0xF0, 0x90, 0xF0, 0x90, 0x90,
        0xE0, 0x90, 0xE0, 0x90, 0xE0,
        0xF0, 0x80, 0x80, 0x80, 0xF0,
        0xE0, 0x90, 0x90, 0x90, 0xE0,
        0xF0, 0x80, 0xF0, 0x80, 0xF0,
        0xF0, 0x80, 0xF0, 0x80, 0x80,
    ];
    assert(r@ =~= font());
    r
}

/// `m` with the bytes of `data` in place from address `from` on.
pub open spec fn spliced(m: Seq<u8>, from: int, data: Seq<u8>) -> Seq<u8> {
    Seq::new(
        m.len(),
        |a: int|
            if from <= a < from + data.len() {
                data[a - from]
            } else {
                m[a]
            },
    )
}

/// Whether a program may read or write at `address`.
pub open spec fn accessible(address: int) -> bool {
    PROGRAM_START <= address < MEMORY_SIZE
}

/// Whether a program may read or write every address of `[from, from + len)`.
pub open spec fn block_accessible(from: int, len: int) -> bool {
    PROGRAM_START <= from < MEMORY_SIZE && from + len <= MEMORY_SIZE
}

/// The first address of `[from, from + len)` that a program may not reach,
/// for a block that is not `block_accessible`.
pub open spec fn block_fault(from: int) -> int {
    if from < PROGRAM_START || from >= MEMORY_SIZE {
        from
    } else {
        MEMORY_SIZE as int
    }
}

/// The machine's memory: the view is the byte at each address.
#[derive(Debug)]
pub struct Memory {
    vector: Vec<u8>,
}

impl View for Memory {
    type V = Seq<u8>;

    closed spec fn view(&self) -> Seq<u8> {
        self.vector@
    }
}

impl Memory {
    /// Every address of the machine exists.
    pub open spec fn wf(&self) -> bool {
        self@.len() == MEMORY_SIZE
    }

    /// Zero-filled memory.
    pub fn new() -> (r: Memory)
        ensures
            r.wf(),
            r@ == Seq::new(MEMORY_SIZE as nat, |a: int| 0u8),
    {
        let mut vector: Vec<u8> = Vec::new();
        let mut k: usize = 0;
        while k < MEMORY_SIZE
            invariant
                k <= MEMORY_SIZE,
                vector@ == Seq::new(k as nat, |a: int| 0u8),
            decreases MEMORY_SIZE - k,
        {
            vector.push(0);
            k = k + 1;
            assert(vector@ =~= Seq::new(k as nat, |a: int| 0u8));
        }
        Memory { vector }
    }

    /// Writes the font glyphs from `FONT_START` on, into the reserved region.
    pub fn load_font(&mut self)
        requires
            old(self).wf(),
        ensures
            final(self).wf(),
            final(self)@ == spliced(old(self)@, FONT_START as int, font()),
    {
        let table = font_table();
        let mut k: usize = 0;
        while k < table.len()
            invariant
                table@ == font(),
                k <= table@.len(),
                self@.len() == MEMORY_SIZE,
                self@ == spliced(old(self)@, FONT_START as int, font().subrange(0, k as int)),
            decreases table@.len() - k,
        {
            self.vector[FONT_START + k] = table[k];
            k = k + 1;
            assert(self@ =~= spliced(old(self)@, FONT_START as int, font().subrange(0, k as int)));
        }
        assert(font().subrange(0, k as int) =~= font());
    }

    /// The byte at `index`; fails below `PROGRAM_START` and past the end.
    pub fn get(&self, index: usize) -> (r: Result<u8, C8Err>)
        requires
            self.wf(),
        ensures
            accessible(index as int) ==> r == Ok::<u8, C8Err>(self@[index as int]),
            !accessible(index as int) ==> r == Err::<u8, C8Err>(
                C8Err::MemoryOutOfRange { address: index },
            ),
    {
        if index < PROGRAM_START || index >= MEMORY_SIZE {
            Err(C8Err::MemoryOutOfRange { address: index })
        } else {
            Ok(self.vector[index])
        }
    }

    /// Stores `v` at `index`; fails below `PROGRAM_START` and past the end,
    /// leaving memory unchanged.
    pub fn write(&mut self, v: u8, index: usize) -> (r: Result<(), C8Err>)
        requires
            old(self).wf(),
        ensures
            final(self).wf(),
            accessible(index as int) ==> r == Ok::<(), C8Err>(()) && final(self)@ == old(
                self,
            )@.update(index as int, v),
            !accessible(index as int) ==> r == Err::<(), C8Err>(
                C8Err::MemoryOutOfRange { address: index },
            ) && final(self)@ == old(self)@,
    {
        if index < PROGRAM_START || index >= MEMORY_SIZE {
            Err(C8Err::MemoryOutOfRange { address: index })
        } else {
            self.vector[index] = v;
            Ok(())
        }
    }

    /// The `len` bytes from `from` on, reserved region included; fails when
    /// the block runs past the end of memory.
    pub fn sprite(&self, from: usize, len: usize) -> (r: Result<Vec<u8>, C8Err>)
        requires
            self.wf(),
        ensures
            from + len <= MEMORY_SIZE ==> r.is_ok() && r.unwrap()@ == self@.subrange(
                from as int,
                from + len,
            ),
            from + len > MEMORY_SIZE ==> r == Err::<Vec<u8>, C8Err>(
                C8Err::MemoryOutOfRange { address: from },
            ),
    {
        if from > MEMORY_SIZE || len > MEMORY_SIZE - from {
            return Err(C8Err::MemoryOutOfRange { address: from });
        }
        let mut out: Vec<u8> = Vec::new();
        let mut k: usize = 0;
        while k < len
            invariant
                from + len <= MEMORY_SIZE,
                self@.len() == MEMORY_SIZE,
                k <= len,
                out@ == self@.subrange(from as int, from + k),
            decreases len - k,
        {
            out.push(self.vector[from + k]);
            k = k + 1;
            assert(out@ =~= self@.subrange(from as int, from + k));
        }
        Ok(out)
    }

    /// The `len` bytes from `from` on, through the same guard as `get`.
    pub fn read_block(&self, from: usize, len: usize) -> (r: Result<Vec<u8>, C8Err>)
        requires
            self.wf(),
        ensures
            block_accessible(from as int, len as int) ==> r.is_ok() && r.unwrap()@
                == self@.subrange(from as int, from + len),
            !block_accessible(from as int, len as int) ==> r == Err::<Vec<u8>, C8Err>(
                C8Err::MemoryOutOfRange { address: block_fault(from as int) as usize },
            ),
    {
        if from < PROGRAM_START || from >= MEMORY_SIZE {
            return Err(C8Err::MemoryOutOfRange { address: from });
        }
        if len > MEMORY_SIZE - from {
            return Err(C8Err::MemoryOutOfRange { address: MEMORY_SIZE });
        }
        self.sprite(from, len)
    }

    /// Stores `data` from `from` on, through the same guard as `write`; on
    /// failure memory is unchanged.
    pub fn write_block(&mut self, from: usize, data: &[u8]) -> (r: Result<(), C8Err>)
        requires
            old(self).wf(),
        ensures
            final(self).wf(),
            block_accessible(from as int, data@.len() as int) ==> r == Ok::<(), C8Err>(())
                && final(self)@ == spliced(old(self)@, from as int, data@),
            !block_accessible(from as int, data@.len() as int) ==> r == Err::<(), C8Err>(
                C8Err::MemoryOutOfRange { address: block_fault(from as int) as usize },
            ) && final(self)@ == old(self)@,
    {
        if from < PROGRAM_START || from >= MEMORY_SIZE {
            return Err(C8Err::MemoryOutOfRange { address: from });
        }
        if data.len() > MEMORY_SIZE - from {
            return Err(C8Err::MemoryOutOfRange { address: MEMORY_SIZE });
        }
        let mut k: usize = 0;
        while k < data.len()
            invariant
                from + data@.len() <= MEMORY_SIZE,
                k <= data@.len(),
                self@.len() == MEMORY_SIZE,
                self@ == spliced(old(self)@, from as int, data@.subrange(0, k as int)),
            decreases data@.len() - k,
        {
            self.vector[from + k] = data[k];
            k = k + 1;
            assert(self@ =~= spliced(old(self)@, from as int, data@.subrange(0, k as int)));
        }
        assert(data@.subrange(0, k as int) =~= data@);
        Ok(())
    }

    /// Copies a program into memory from `PROGRAM_START` on; fails, leaving
    /// memory unchanged, when it does not fit below `MEMORY_SIZE`.
    pub fn load_program(&mut self, program: &[u8]) -> (r: Result<(), C8Err>)
        requires
            old(self).wf(),
        ensures
            final(self).wf(),
            program@.len() <= MEMORY_SIZE - PROGRAM_START ==> r == Ok::<(), C8Err>(())
                && final(self)@ == spliced(old(self)@, PROGRAM_START as int, program@),
            program@.len() > MEMORY_SIZE - PROGRAM_START ==> r == Err::<(), C8Err>(
                C8Err::MemoryOutOfRange { address: MEMORY_SIZE },
            ) && final(self)@ == old(self)@,
    {
        self.write_block(PROGRAM_START, program)
    }
}

} // verus!
