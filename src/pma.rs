//! Packet memory: the peripheral's own buffer memory, seen as 16-bit words.
//! Its base holds the buffer-descriptor table, one four-word record per
//! endpoint slot; above it payload buffers are handed out by a bump
//! allocator that never frees.
use vstd::prelude::*;
use crate::usb::UsbError;

verus! {

/// Size of the packet memory in bytes.
pub const EP_MEM_SIZE: usize = 512;
/// Size of the packet memory in 16-bit words.
pub const EP_MEM_WORDS: usize = 256;
/// Bytes taken by the descriptor table: four words for each of the 8 slots.
pub const BTABLE_SIZE: usize = 64;

/// Transmit and receive buffer of one endpoint slot, as offsets and counts.
#[derive(Clone, Copy, Debug, PartialEq, Eq, Structural)]
pub struct BufferDescriptor {
    pub addr_tx: u16,
    pub count_tx: u16,
    pub addr_rx: u16,
    pub count_rx: u16,
}

/// Byte `k` of a word sequence, low byte first.
pub open spec fn byte_of(words: Seq<u16>, k: int) -> u8 {
    if k % 2 == 0 {
        (words[k / 2] & 0xff) as u8
    } else {
        (words[k / 2] >> 8u16) as u8
    }
}

/// The descriptor of `slot` as stored in `words`.
pub open spec fn descriptor_of(words: Seq<u16>, slot: int) -> BufferDescriptor {
    BufferDescriptor {
        addr_tx: words[4 * slot],
        count_tx: words[4 * slot + 1],
        addr_rx: words[4 * slot + 2],
        count_rx: words[4 * slot + 3],
    }
}

/// `size` rounded up to whole 16-bit words.
pub open spec fn word_rounded(size: nat) -> nat {
    ((size + 1) / 2 * 2) as nat
}

pub struct PacketMemory {
    words: Vec<u16>,
    next_free: usize,
}

impl PacketMemory {
    pub open spec fn wf(&self) -> bool {
        &&& self.words().len() == EP_MEM_WORDS
        &&& BTABLE_SIZE <= self.free_offset() <= EP_MEM_SIZE
        &&& self.free_offset() % 2 == 0
    }

    /// The memory's contents, word by word.
    pub closed spec fn words(&self) -> Seq<u16> {
        self.words@
    }

    /// The memory's contents, byte by byte.
    pub open spec fn bytes(&self) -> Seq<u8> {
        Seq::new(EP_MEM_SIZE as nat, |k: int| byte_of(self.words(), k))
    }

    /// Offset of the first byte not yet handed out.
    pub closed spec fn free_offset(&self) -> nat {
        self.next_free as nat
    }

    pub open spec fn spec_descriptor(&self, slot: int) -> BufferDescriptor {
        descriptor_of(self.words(), slot)
    }

    /// Zeroed memory with nothing allocated above the descriptor table.
    pub fn new() -> (r: PacketMemory)
        ensures
            r.wf(),
            r.free_offset() == BTABLE_SIZE,
            forall|i: int| 0 <= i < EP_MEM_WORDS ==> #[trigger] r.words()[i] == 0,
    {
        let mut words: Vec<u16> = Vec::new();
        while words.len() < EP_MEM_WORDS
            invariant
                words@.len() <= EP_MEM_WORDS,
                forall|i: int| 0 <= i < words@.len() ==> #[trigger] words@[i] == 0,
            decreases EP_MEM_WORDS - words@.len(),
        {
            words.push(0);
        }
        PacketMemory { words, next_free: BTABLE_SIZE }
    }

    /// Hands out `size` bytes, rounded up to whole words, from the free region.
    pub fn allocate(&mut self, size: usize) -> (r: Result<usize, UsbError>)
        requires
            old(self).wf(),
        ensures
            final(self).wf(),
            final(self).words() == old(self).words(),
            old(self).free_offset() + word_rounded(size as nat) <= EP_MEM_SIZE ==> r == Ok::<
                usize,
                UsbError,
            >(old(self).free_offset() as usize) && final(self).free_offset() == old(self).free_offset()
                + word_rounded(size as nat),
            old(self).free_offset() + word_rounded(size as nat) > EP_MEM_SIZE ==> r == Err::<
                usize,
                UsbError,
            >(UsbError::EndpointOverflow) && *final(self) == *old(self),
    {
        let offset = self.next_free;
        if size > EP_MEM_SIZE - offset {
            return Err(UsbError::EndpointOverflow);
        }
        let rounded = (size + 1) / 2 * 2;
        if rounded > EP_MEM_SIZE - offset {
            return Err(UsbError::EndpointOverflow);
        }
        self.next_free = offset + rounded;
        Ok(offset)
    }

    /// The descriptor of `slot`; any slot below the endpoint count has one.
    pub fn descriptor(&self, slot: usize) -> (r: BufferDescriptor)
        requires
            self.wf(),
            slot < 8,
        ensures
            r == self.spec_descriptor(slot as int),
    {
        BufferDescriptor {
            addr_tx: self.words[4 * slot],
            count_tx: self.words[4 * slot + 1],
            addr_rx: self.words[4 * slot + 2],
            count_rx: self.words[4 * slot + 3],
        }
    }

    /// Stores the descriptor of `slot`; the rest of the memory is untouched.
    pub fn set_descriptor(&mut self, slot: usize, bd: BufferDescriptor)
        requires
            old(self).wf(),
            slot < 8,
        ensures
            final(self).wf(),
            final(self).free_offset() == old(self).free_offset(),
            final(self).spec_descriptor(slot as int) == bd,
            forall|i: int|
                0 <= i < EP_MEM_WORDS && !(4 * slot <= i < 4 * slot + 4)
                    ==> #[trigger] final(self).words()[i] == old(self).words()[i],
    {
        self.words.set(4 * slot, bd.addr_tx);
        self.words.set(4 * slot + 1, bd.count_tx);
        self.words.set(4 * slot + 2, bd.addr_rx);
        self.words.set(4 * slot + 3, bd.count_rx);
    }
    /// Copies the `len` bytes that start at byte `offset` into the front of
    /// `dest`; the rest of `dest` is left as it was.
    pub fn read(&self, offset: usize, len: usize, dest: &mut [u8])
        requires
            self.wf(),
            offset + len <= EP_MEM_SIZE,
            len <= old(dest)@.len(),
        ensures
            final(dest)@.len() == old(dest)@.len(),
            forall|k: int| 0 <= k < len ==> #[trigger] final(dest)@[k] == self.bytes()[offset + k],
            forall|k: int| len <= k < old(dest)@.len() ==> #[trigger] final(dest)@[k] == old(dest)@[k],
    {
        let mut i: usize = 0;
        while i < len
            invariant
                self.wf(),
                offset + len <= EP_MEM_SIZE,
                len <= old(dest)@.len(),
                i <= len,
                dest@.len() == old(dest)@.len(),
                forall|k: int| 0 <= k < i ==> #[trigger] dest@[k] == self.bytes()[offset + k],
                forall|k: int| i <= k < old(dest)@.len() ==> #[trigger] dest@[k] == old(dest)@[k],
            decreases len - i,
        {
            let k = offset + i;
            let w = self.words[k / 2];
            let b: u8 = if k % 2 == 0 {
                (w & 0xff) as u8
            } else {
                (w >> 8u16) as u8
            };
            dest[i] = b;
            i = i + 1;
        }
    }

    /// Copies `src` into the memory from byte `offset` on. Words that hold
    /// none of the written bytes keep their values.
    pub fn write(&mut self, offset: usize, src: &[u8])
        requires
            old(self).wf(),
            offset + src@.len() <= EP_MEM_SIZE,
        ensures
            final(self).wf(),
            final(self).free_offset() == old(self).free_offset(),
            forall|k: int|
                0 <= k < EP_MEM_SIZE ==> #[trigger] final(self).bytes()[k] == if offset <= k < offset
                    + src@.len() {
                    src@[k - offset]
                } else {
                    old(self).bytes()[k]
                },
            forall|j: int|
                0 <= j < EP_MEM_WORDS && (2 * j + 1 < offset || 2 * j >= offset + src@.len())
                    ==> #[trigger] final(self).words()[j] == old(self).words()[j],
    {
        let mut i: usize = 0;
        while i < src.len()
            invariant
                self.wf(),
                self.free_offset() == old(self).free_offset(),
                offset + src@.len() <= EP_MEM_SIZE,
                i <= src@.len(),
                forall|k: int|
                    0 <= k < EP_MEM_SIZE ==> #[trigger] byte_of(self.words(), k) == if offset <= k
                        < offset + i {
                        src@[k - offset]
                    } else {
                        byte_of(old(self).words(), k)
                    },
                forall|j: int|
                    0 <= j < EP_MEM_WORDS && (2 * j + 1 < offset || 2 * j >= offset + i)
                        ==> #[trigger] self.words()[j] == old(self).words()[j],
            decreases src@.len() - i,
        {
            let k = offset + i;
            let j = k / 2;
            let w = self.words[j];
            let b = src[i];
            let nw: u16 = if k % 2 == 0 {
                (w & 0xff00) | (b as u16)
            } else {
                (w & 0x00ff) | ((b as u16) << 8u16)
            };
            let ghost before = self.words();
            self.words.set(j, nw);
            proof {
                lemma_set_byte(w, b);
                assert forall|m: int| 0 <= m < EP_MEM_SIZE implies #[trigger] byte_of(
                    self.words(),
                    m,
                ) == if offset <= m < offset + i + 1 {
                    src@[m - offset]
                } else {
                    byte_of(old(self).words(), m)
                } by {
                    assert(byte_of(before, m) == if offset <= m < offset + i {
                        src@[m - offset]
                    } else {
                        byte_of(old(self).words(), m)
                    });
                    if m / 2 != j as int {
                        assert(self.words()[m / 2] == before[m / 2]);
                    } else {
                        assert(self.words()[m / 2] == nw);
                        assert(before[m / 2] == w);
                    }
                }
            }
            i = i + 1;
        }
        proof {
            assert forall|k: int| 0 <= k < EP_MEM_SIZE implies #[trigger] self.bytes()[k]
                == byte_of(self.words(), k) by {}
            assert forall|k: int| 0 <= k < EP_MEM_SIZE implies #[trigger] old(self).bytes()[k]
                == byte_of(old(self).words(), k) by {}
        }
    }
}

proof fn lemma_set_byte(w: u16, b: u8)
    ensures
        ((w & 0xff00) | (b as u16)) & 0xff == b as u16,
        (((w & 0xff00) | (b as u16)) >> 8u16) as u8 == (w >> 8u16) as u8,
        (((w & 0x00ff) | ((b as u16) << 8u16)) & 0xff) as u8 == (w & 0xff) as u8,
        (((w & 0x00ff) | ((b as u16) << 8u16)) >> 8u16) as u8 == b,
{
    assert(((w & 0xff00) | (b as u16)) & 0xff == b as u16) by (bit_vector);
    assert((((w & 0xff00) | (b as u16)) >> 8u16) as u8 == (w >> 8u16) as u8) by (bit_vector);
    assert((((w & 0x00ff) | ((b as u16) << 8u16)) & 0xff) as u8 == (w & 0xff) as u8)
        by (bit_vector);
    assert((((w & 0x00ff) | ((b as u16) << 8u16)) >> 8u16) as u8 == b) by (bit_vector);
}

} // verus!
