//! Word-addressable memory: 32-bit words, 64-bit values as big-endian word
//! pairs, instruction decoding and program loading.
use vstd::prelude::*;

verus! {

/// The source field of an instruction word: its high 16 bits.
pub open spec fn src_field(word: u32) -> int {
    word as int / 65536
}

/// The destination field of an instruction word: its low 16 bits.
pub open spec fn dst_field(word: u32) -> int {
    word as int % 65536
}

/// The 64-bit value held by the word pair at `2 * address`, high word first.
pub open spec fn double_at(words: Seq<u32>, address: int) -> int {
    words[2 * address] as int * 4294967296 + words[2 * address + 1] as int
}

/// Whether the word pair of a 64-bit value at `address` lies inside `len` words.
pub open spec fn double_in_range(len: int, address: int) -> bool {
    0 <= address && 2 * address + 1 < len
}

/// The words after storing `value` at the word pair of `address`.
pub open spec fn store_double_spec(words: Seq<u32>, address: int, value: u64) -> Seq<u32> {
    words.update(2 * address, (value as int / 4294967296) as u32).update(
        2 * address + 1,
        (value as int % 4294967296) as u32,
    )
}

/// The word packed big-endian from the `k`-th group of four bytes.
pub open spec fn packed_word(data: Seq<u8>, k: int) -> int {
    ((data[4 * k] as int * 256 + data[4 * k + 1] as int) * 256 + data[4 * k + 2] as int) * 256
        + data[4 * k + 3] as int
}

/// One past the last word that loading `n_bytes` bytes at `base` writes in a memory
/// of `capacity` words. Of the complete groups of four bytes that fit, the last one
/// is not stored; an incomplete trailing group never is.
pub open spec fn load_end(capacity: int, n_bytes: int, base: int) -> int {
    let limit = if base + n_bytes / 4 < capacity {
        base + n_bytes / 4
    } else {
        capacity
    };
    if limit > 0 {
        limit - 1
    } else {
        0
    }
}

/// The words after loading `data` at word offset `base`.
pub open spec fn loaded(words: Seq<u32>, data: Seq<u8>, base: int) -> Seq<u32> {
    let end = load_end(words.len() as int, data.len() as int, base);
    Seq::new(
        words.len(),
        |i: int|
            if base <= i < end {
                packed_word(data, i - base) as u32
            } else {
                words[i]
            },
    )
}

/// A flat store of 32-bit words whose length is fixed when it is made.
pub struct Memory {
    buffer: Vec<u32>,
}

impl View for Memory {
    type V = Seq<u32>;

    closed spec fn view(&self) -> Seq<u32> {
        self.buffer@
    }
}

impl Memory {
    /// A memory of `capacity` words, all zero.
    pub fn new(capacity: usize) -> (m: Memory)
        ensures
            m@ == Seq::new(capacity as nat, |i: int| 0u32),
    {
        let mut buffer: Vec<u32> = Vec::new();
        let mut i: usize = 0;
        while i < capacity
            invariant
                i <= capacity,
                buffer@ == Seq::new(i as nat, |j: int| 0u32),
            decreases capacity - i,
        {
            buffer.push(0);
            i = i + 1;
            assert(buffer@ =~= Seq::new(i as nat, |j: int| 0u32));
        }
        Memory { buffer }
    }

    /// The number of words.
    pub fn capacity(&self) -> (r: usize)
        ensures
            r == self@.len(),
    {
        self.buffer.len()
    }

    /// The word at `address`.
    pub fn load32(&self, address: usize) -> (r: u32)
        requires
            address < self@.len(),
        ensures
            r == self@[address as int],
    {
        self.buffer[address]
    }

    /// The instruction at `address`, split into its source and destination fields.
    pub fn load_opcode(&self, address: usize) -> (r: (u16, u16))
        requires
            address < self@.len(),
        ensures
            r.0 == src_field(self@[address as int]),
            r.1 == dst_field(self@[address as int]),
    {
        let word = self.load32(address);
        let src = (word >> 16u32) as u16;
        let dst = (word & 0xFFFFu32) as u16;
        assert(src == word / 65536 && dst == word % 65536) by (bit_vector)
            requires
                src == (word >> 16u32) as u16,
                dst == (word & 0xFFFFu32) as u16,
        ;
        (src, dst)
    }

    /// The 64-bit value at the word pair of `address`.
    pub fn load64(&self, address: usize) -> (r: u64)
        requires
            double_in_range(self@.len() as int, address as int),
        ensures
            r as int == double_at(self@, address as int),
    {
        let len = self.buffer.len();
        assert(address * 2 + 1 < len);
        let hi = self.buffer[address * 2] as u64;
        let lo = self.buffer[address * 2 + 1] as u64;
        assert(hi * 4294967296 + lo <= u64::MAX) by (nonlinear_arith)
            requires
                hi < 4294967296,
                lo < 4294967296,
        ;
        hi * 4294967296 + lo
    }

    /// Stores `value` at the word pair of `address`, high word first.
    pub fn store64(&mut self, address: usize, value: u64)
        requires
            double_in_range(old(self)@.len() as int, address as int),
        ensures
            final(self)@ == store_double_spec(old(self)@, address as int, value),
    {
        let len = self.buffer.len();
        assert(address * 2 + 1 < len);
        let hi = (value / 4294967296) as u32;
        let lo = (value % 4294967296) as u32;
        self.buffer.set(address * 2, hi);
        self.buffer.set(address * 2 + 1, lo);
    }

    /// Loads a program image: every four bytes of `data` make one word, big-endian,
    /// written from word `base` on, up to the memory's end. The last complete group
    /// that fits is not stored, nor is an incomplete trailing group.
    pub fn store(&mut self, data: &[u8], base: usize)
        ensures
            final(self)@ == loaded(old(self)@, data@, base as int),
    {
        let capacity = self.buffer.len();
        let words = data.len() / 4;
        let limit: usize = if base < capacity && words < capacity - base {
            base + words
        } else {
            capacity
        };
        let end: usize = if limit > 0 {
            limit - 1
        } else {
            0
        };
        assert(end as int == load_end(capacity as int, data@.len() as int, base as int));
        let mut i: usize = base;
        while i < end
            invariant
                base <= i,
                i <= end || i == base,
                data@.len() == data.len(),
                old(self)@.len() == capacity,
                end <= capacity == self.buffer@.len(),
                end == load_end(capacity as int, data@.len() as int, base as int),
                forall|j: int|
                    0 <= j < capacity ==> #[trigger] self.buffer@[j] == (if base <= j < i {
                        packed_word(data@, j - base) as u32
                    } else {
                        old(self)@[j]
                    }),
            decreases end - i,
        {
            let k = i - base;
            assert(4 * k + 3 < data@.len());
            let b0 = data[4 * k] as u32;
            let b1 = data[4 * k + 1] as u32;
            let b2 = data[4 * k + 2] as u32;
            let b3 = data[4 * k + 3] as u32;
            assert(((b0 * 256 + b1) * 256 + b2) * 256 + b3 <= u32::MAX) by (nonlinear_arith)
                requires
                    b0 < 256,
                    b1 < 256,
                    b2 < 256,
                    b3 < 256,
            ;
            let word = ((b0 * 256 + b1) * 256 + b2) * 256 + b3;
            self.buffer.set(i, word);
            i = i + 1;
        }
        assert(self@ =~= loaded(old(self)@, data@, base as int));
    }
}

} // verus!
