//! The 256-cell address space. Cell 2 is hardwired to ground: it reads as
//! zero whatever was stored there, and writes to it land in a throwaway
//! cell instead of the visible store.

use vstd::prelude::*;

verus! {

/// A memory view is well formed when it has exactly 256 cells and the
/// hardwired cell reads zero.
pub open spec fn mem_inv(m: Seq<u8>) -> bool {
    &&& m.len() == 256
    &&& m[2] == 0
}

/// What a read of address `a` yields on the view `m`.
pub open spec fn read_at(m: Seq<u8>, a: u8) -> u8 {
    if a == 2 {
        0
    } else {
        m[a as int]
    }
}

/// The view after writing `v` at address `a`: unchanged for the hardwired
/// cell, a plain update everywhere else.
pub open spec fn write_at(m: Seq<u8>, a: u8, v: u8) -> Seq<u8> {
    if a == 2 {
        m
    } else {
        m.update(a as int, v)
    }
}

/// The all-zero view a fresh memory starts from.
pub open spec fn zero_mem() -> Seq<u8> {
    Seq::new(256, |i: int| 0u8)
}

/// The view after loading the image `bytes`: the first 256 bytes verbatim,
/// except that the hardwired cell still reads zero.
pub open spec fn loaded_mem(bytes: Seq<u8>) -> Seq<u8> {
    bytes.take(256).update(2, 0u8)
}

/// The one way loading an image can fail: the source did not supply a full
/// 256 bytes.
#[derive(Debug, Clone, Copy, PartialEq, Eq, Structural)]
pub struct LoadError;

/// The machine's addressable store.
pub struct Memory {
    raw: Vec<u8>,
    null: u8,
}

impl View for Memory {
    type V = Seq<u8>;

    closed spec fn view(&self) -> Seq<u8> {
        self.raw@
    }
}

impl Memory {
    /// Internal invariant: the store always holds exactly 256 cells and the
    /// hardwired cell never holds a visible value.
    pub closed spec fn wf(&self) -> bool {
        &&& self.raw@.len() == 256
        &&& self.raw@[2] == 0
    }

    /// A well-formed memory satisfies the view invariant.
    pub proof fn lemma_wf(&self)
        requires
            self.wf(),
        ensures
            mem_inv(self@),
    {
    }

    /// A fresh, zero-filled memory.
    pub fn new() -> (r: Memory)
        ensures
            r.wf(),
            r@ == zero_mem(),
    {
        let mut raw: Vec<u8> = Vec::new();
        let mut i: usize = 0;
        while i < 256
            invariant
                i <= 256,
                raw@.len() == i,
                forall|j: int| 0 <= j < i ==> raw@[j] == 0u8,
            decreases 256 - i,
        {
            raw.push(0);
            i += 1;
        }
        let r = Memory { raw, null: 0 };
        proof {
            assert(r@ =~= zero_mem());
        }
        r
    }

    /// Read the cell at `addr`; the hardwired cell always yields zero.
    pub fn read(&self, addr: u8) -> (r: u8)
        requires
            self.wf(),
        ensures
            r == read_at(self@, addr),
            r == self@[addr as int],
    {
        if addr == 2 {
            0
        } else {
            self.raw[addr as usize]
        }
    }

    /// Store `v` at `addr`; a write to the hardwired cell is discarded into
    /// the throwaway cell and leaves the visible store unchanged.
    pub fn write(&mut self, addr: u8, v: u8)
        requires
            old(self).wf(),
        ensures
            final(self).wf(),
            final(self)@ == write_at(old(self)@, addr, v),
    {
        if addr == 2 {
            self.null = v;
        } else {
            self.raw.set(addr as usize, v);
        }
    }

    /// Replace the whole store with the first 256 bytes of `bytes`. Fails
    /// with `LoadError`, leaving the store untouched, when the image is
    /// shorter than 256 bytes; bytes past the first 256 are ignored.
    pub fn load_from(&mut self, bytes: &Vec<u8>) -> (r: Result<(), LoadError>)
        requires
            old(self).wf(),
        ensures
            final(self).wf(),
            bytes@.len() < 256 ==> r is Err && final(self)@ == old(self)@,
            bytes@.len() >= 256 ==> r is Ok && final(self)@ == loaded_mem(bytes@),
    {
        if bytes.len() < 256 {
            return Err(LoadError);
        }
        let mut i: usize = 0;
        while i < 256
            invariant
                i <= 256,
                256 <= bytes@.len(),
                self.wf(),
                forall|j: int| 0 <= j < i && j != 2 ==> self@[j] == bytes@[j],
                forall|j: int| i <= j < 256 ==> self@[j] == old(self)@[j],
            decreases 256 - i,
        {
            self.write(i as u8, bytes[i]);
            i += 1;
        }
        proof {
            assert(self@ =~= loaded_mem(bytes@));
        }
        Ok(())
    }
}

/// Writing any address other than the hardwired cell and reading it back
/// yields exactly the value written.
pub proof fn lemma_write_then_read(m: Seq<u8>, a: u8, v: u8)
    requires
        mem_inv(m),
        a != 2,
    ensures
        read_at(write_at(m, a, v), a) == v,
{
}

/// Whatever is written to the hardwired cell, reading it yields zero, and
/// the visible store is unchanged.
pub proof fn lemma_zero_cell(m: Seq<u8>, v: u8)
    requires
        mem_inv(m),
    ensures
        read_at(write_at(m, 2, v), 2) == 0,
        write_at(m, 2, v) == m,
{
}

/// A write leaves every other address unchanged.
pub proof fn lemma_write_frames(m: Seq<u8>, a: u8, v: u8, b: u8)
    requires
        mem_inv(m),
        b != a,
    ensures
        read_at(write_at(m, a, v), b) == read_at(m, b),
{
}

} // verus!
