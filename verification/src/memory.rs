//! The flat byte store that a hart fetches from, loads from and stores to.
//!
//! A store covers the addresses `base .. base + len`. Multi-byte values are
//! little-endian: [`le_value`] gives the number that a run of bytes denotes
//! and [`le_bytes`] the bytes of a number.

use crate::instruction::InstructionException;
use vstd::prelude::*;

verus! {

/// 256 to the power `n`: the number of values that `n` bytes can hold.
pub open spec fn pow256(n: nat) -> nat
    decreases n,
{
    if n == 0 {
        1
    } else {
        256 * pow256((n - 1) as nat)
    }
}

/// The number that `bytes` denotes, least significant byte first.
pub open spec fn le_value(bytes: Seq<u8>) -> nat
    decreases bytes.len(),
{
    if bytes.len() == 0 {
        0
    } else {
        bytes[0] as nat + 256 * le_value(bytes.drop_first())
    }
}

/// The `n` low bytes of `value`, least significant byte first.
pub open spec fn le_bytes(value: nat, n: nat) -> Seq<u8>
    decreases n,
{
    if n == 0 {
        Seq::empty()
    } else {
        seq![(value % 256) as u8] + le_bytes(value / 256, (n - 1) as nat)
    }
}

/// The powers of 256 up to the eighth, which is `2^64`.
pub proof fn lemma_pow256_values()
    ensures
        pow256(0) == 1,
        pow256(1) == 0x100,
        pow256(2) == 0x1_0000,
        pow256(3) == 0x100_0000,
        pow256(4) == 0x1_0000_0000,
        pow256(5) == 0x100_0000_0000,
        pow256(6) == 0x1_0000_0000_0000,
        pow256(7) == 0x100_0000_0000_0000,
        pow256(8) == 0x1_0000_0000_0000_0000,
{
    reveal_with_fuel(pow256, 9);
}

/// A run of `n` bytes denotes a number below `256^n`.
pub proof fn lemma_le_value_bound(bytes: Seq<u8>)
    ensures
        le_value(bytes) < pow256(bytes.len()),
    decreases bytes.len(),
{
    if bytes.len() > 0 {
        lemma_le_value_bound(bytes.drop_first());
    }
}

/// `le_bytes` yields exactly `n` bytes.
pub proof fn lemma_le_bytes_len(value: nat, n: nat)
    ensures
        le_bytes(value, n).len() == n,
    decreases n,
{
    if n > 0 {
        lemma_le_bytes_len(value / 256, (n - 1) as nat);
    }
}

/// The bytes of a number denote that number, reduced to what `n` bytes can
/// hold.
pub proof fn lemma_le_value_of_bytes(value: nat, n: nat)
    ensures
        le_value(le_bytes(value, n)) == value % pow256(n),
    decreases n,
{
    if n == 0 {
    } else {
        let rest = le_bytes(value / 256, (n - 1) as nat);
        let all = le_bytes(value, n);
        lemma_le_value_of_bytes(value / 256, (n - 1) as nat);
        lemma_le_bytes_len(value / 256, (n - 1) as nat);
        assert(all.drop_first() =~= rest);
        assert(all[0] == (value % 256) as u8);
        let p = pow256((n - 1) as nat);
        lemma_pow256_positive((n - 1) as nat);
        lemma_mod_split(value, p);
    }
}

/// Every power of 256 is positive.
pub proof fn lemma_pow256_positive(n: nat)
    ensures
        pow256(n) > 0,
    decreases n,
{
    if n > 0 {
        lemma_pow256_positive((n - 1) as nat);
    }
}

/// Reducing modulo `256 * p` keeps the low byte and reduces the rest
/// modulo `p`.
proof fn lemma_mod_split(value: nat, p: nat)
    requires
        p > 0,
    ensures
        value % (256 * p) == value % 256 + 256 * ((value / 256) % p),
{
    let q = value / 256;
    let r = value % 256;
    assert(value == 256 * q + r);
    let qq = q / p;
    let qr = q % p;
    assert(q == p * qq + qr) by {
        vstd::arithmetic::div_mod::lemma_fundamental_div_mod(q as int, p as int);
    }
    assert(value == qq * (256 * p) + (256 * qr + r)) by (nonlinear_arith)
        requires
            value == 256 * q + r,
            q == p * qq + qr,
    ;
    assert(0 <= 256 * qr + r < 256 * p) by (nonlinear_arith)
        requires
            0 <= qr < p,
            0 <= r < 256,
    ;
    vstd::arithmetic::div_mod::lemma_fundamental_div_mod_converse(
        value as int,
        (256 * p) as int,
        qq as int,
        (256 * qr + r) as int,
    );
}

/// What a store holds: its first address and its bytes.
pub struct MemoryView {
    pub base: u64,
    pub bytes: Seq<u8>,
}

impl MemoryView {
    /// Whether the `len` bytes from `addr` on all lie in the store.
    pub open spec fn contains(self, addr: u64, len: nat) -> bool {
        self.base <= addr && addr - self.base + len <= self.bytes.len()
    }

    /// The `len` bytes from `addr` on.
    pub open spec fn read(self, addr: u64, len: nat) -> Seq<u8>
        recommends
            self.contains(addr, len),
    {
        self.bytes.subrange(addr - self.base, addr - self.base + len)
    }

    /// The store with `data` put at `addr`.
    pub open spec fn write(self, addr: u64, data: Seq<u8>) -> MemoryView
        recommends
            self.contains(addr, data.len()),
    {
        MemoryView {
            base: self.base,
            bytes: Seq::new(
                self.bytes.len(),
                |i: int|
                    if addr - self.base <= i < addr - self.base + data.len() {
                        data[i - (addr - self.base)]
                    } else {
                        self.bytes[i]
                    },
            ),
        }
    }

    /// The little-endian number in the `width` bytes from `addr` on.
    pub open spec fn load(self, addr: u64, width: nat) -> nat
        recommends
            self.contains(addr, width),
    {
        le_value(self.read(addr, width))
    }

    /// The store with the `width` low bytes of `value` put at `addr`,
    /// least significant byte first.
    pub open spec fn store(self, addr: u64, width: nat, value: u64) -> MemoryView
        recommends
            self.contains(addr, width),
    {
        self.write(addr, le_bytes(value as nat, width))
    }
}

/// A flat byte store that covers the addresses `base .. base + len`.
pub struct Memory {
    base: u64,
    bytes: Vec<u8>,
}

impl View for Memory {
    type V = MemoryView;

    closed spec fn view(&self) -> MemoryView {
        MemoryView { base: self.base, bytes: self.bytes@ }
    }
}

impl Memory {
    /// A store that holds `bytes` from address `base` on.
    pub fn new(base: u64, bytes: Vec<u8>) -> (m: Memory)
        ensures
            m@ == (MemoryView { base, bytes: bytes@ }),
    {
        Memory { base, bytes }
    }

    /// The first address of the store.
    pub fn base(&self) -> (r: u64)
        ensures
            r == self@.base,
    {
        self.base
    }

    /// The number of bytes in the store.
    pub fn len(&self) -> (r: usize)
        ensures
            r == self@.bytes.len(),
    {
        self.bytes.len()
    }

    /// Whether the `len` bytes from `addr` on all lie in the store.
    pub fn contains(&self, addr: u64, len: usize) -> (r: bool)
        ensures
            r == self@.contains(addr, len as nat),
            self@.bytes.len() <= usize::MAX,
    {
        let size: u64 = self.bytes.len() as u64;
        if addr < self.base {
            return false;
        }
        let offset: u64 = addr - self.base;
        offset <= size && len as u64 <= size - offset
    }

    /// Reads the `len` bytes from `addr` on. A range that is not wholly in
    /// the store is a memory access fault.
    pub fn read(&self, addr: u64, len: usize) -> (r: Result<Vec<u8>, InstructionException>)
        ensures
            self@.contains(addr, len as nat) ==> r.is_ok() && r.unwrap()@ == self@.read(
                addr,
                len as nat,
            ),
            !self@.contains(addr, len as nat) ==> r == Err::<Vec<u8>, InstructionException>(
                InstructionException::MemoryAccessFault,
            ),
    {
        if !self.contains(addr, len) {
            return Err(InstructionException::MemoryAccessFault);
        }
        let offset: usize = (addr - self.base) as usize;
        let mut out: Vec<u8> = Vec::with_capacity(len);
        let mut i: usize = 0;
        while i < len
            invariant
                i <= len,
                offset + len <= self.bytes@.len() <= usize::MAX,
                out@ == self.bytes@.subrange(offset as int, offset + i),
            decreases len - i,
        {
            out.push(self.bytes[offset + i]);
            i += 1;
            assert(out@ =~= self.bytes@.subrange(offset as int, offset + i));
        }
        Ok(out)
    }

    /// Writes `data` at `addr`. A range that is not wholly in the store is a
    /// memory access fault, and then nothing is written.
    pub fn write(&mut self, addr: u64, data: &[u8]) -> (r: Result<(), InstructionException>)
        ensures
            old(self)@.contains(addr, data@.len()) ==> r.is_ok() && final(self)@ == old(
                self,
            )@.write(addr, data@),
            !old(self)@.contains(addr, data@.len()) ==> r == Err::<(), InstructionException>(
                InstructionException::MemoryAccessFault,
            ) && final(self)@ == old(self)@,
    {
        if !self.contains(addr, data.len()) {
            return Err(InstructionException::MemoryAccessFault);
        }
        let offset: usize = (addr - self.base) as usize;
        let len: usize = data.len();
        let mut i: usize = 0;
        while i < len
            invariant
                i <= len,
                len == data@.len(),
                self.base == old(self).base,
                self.bytes@.len() == old(self).bytes@.len(),
                offset + len <= self.bytes@.len() <= usize::MAX,
                forall|j: int|
                    0 <= j < self.bytes@.len() ==> self.bytes@[j] == if offset <= j < offset + i {
                        data@[j - offset]
                    } else {
                        old(self).bytes@[j]
                    },
            decreases len - i,
        {
            self.bytes.set(offset + i, data[i]);
            i += 1;
        }
        assert(self@.bytes =~= old(self)@.write(addr, data@).bytes);
        Ok(())
    }

    /// Loads the little-endian number in the `width` bytes from `addr` on.
    /// A range that is not wholly in the store is a memory access fault.
    pub fn load(&self, addr: u64, width: usize) -> (r: Result<u64, InstructionException>)
        requires
            width <= 8,
        ensures
            self@.contains(addr, width as nat) ==> r == Ok::<u64, InstructionException>(
                self@.load(addr, width as nat) as u64,
            ) && self@.load(addr, width as nat) < pow256(width as nat),
            !self@.contains(addr, width as nat) ==> r == Err::<u64, InstructionException>(
                InstructionException::MemoryAccessFault,
            ),
    {
        if !self.contains(addr, width) {
            return Err(InstructionException::MemoryAccessFault);
        }
        let offset: usize = (addr - self.base) as usize;
        let ghost all = self.bytes@.subrange(offset as int, offset + width);
        let mut value: u64 = 0;
        let mut i: usize = width;
        proof {
            lemma_pow256_values();
            assert(all.subrange(width as int, width as int) =~= Seq::<u8>::empty());
        }
        while i > 0
            invariant
                i <= width <= 8,
                offset + width <= self.bytes@.len() <= usize::MAX,
                all == self.bytes@.subrange(offset as int, offset + width),
                value == le_value(all.subrange(i as int, width as int)),
                value < pow256((width - i) as nat),
            decreases i,
        {
            i -= 1;
            let byte: u8 = self.bytes[offset + i];
            proof {
                let tail = all.subrange(i as int, width as int);
                assert(tail.drop_first() =~= all.subrange(i + 1, width as int));
                assert(tail[0] == byte);
                lemma_pow256_values();
                reveal_with_fuel(pow256, 2);
            }
            value = value * 256 + byte as u64;
        }
        proof {
            assert(all.subrange(0, width as int) =~= all);
        }
        Ok(value)
    }

    /// Stores the `width` low bytes of `value` at `addr`, least significant
    /// byte first. A range that is not wholly in the store is a memory access
    /// fault, and then nothing is written.
    pub fn store(&mut self, addr: u64, width: usize, value: u64) -> (r: Result<
        (),
        InstructionException,
    >)
        ensures
            old(self)@.contains(addr, width as nat) ==> r.is_ok() && final(self)@ == old(
                self,
            )@.store(addr, width as nat, value),
            !old(self)@.contains(addr, width as nat) ==> r == Err::<(), InstructionException>(
                InstructionException::MemoryAccessFault,
            ) && final(self)@ == old(self)@,
    {
        if !self.contains(addr, width) {
            return Err(InstructionException::MemoryAccessFault);
        }
        let offset: usize = (addr - self.base) as usize;
        let ghost data = le_bytes(value as nat, width as nat);
        let mut rest: u64 = value;
        let mut i: usize = 0;
        proof {
            lemma_le_bytes_len(value as nat, width as nat);
        }
        while i < width
            invariant
                i <= width,
                data == le_bytes(value as nat, width as nat),
                data.len() == width,
                self.base == old(self).base,
                self.bytes@.len() == old(self).bytes@.len(),
                offset + width <= self.bytes@.len() <= usize::MAX,
                data.subrange(i as int, width as int) == le_bytes(rest as nat, (width - i) as nat),
                forall|j: int|
                    0 <= j < self.bytes@.len() ==> self.bytes@[j] == if offset <= j < offset + i {
                        data[j - offset]
                    } else {
                        old(self).bytes@[j]
                    },
            decreases width - i,
        {
            proof {
                let tail = le_bytes(rest as nat, (width - i) as nat);
                assert(tail[0] == (rest % 256) as u8);
                assert(data[i as int] == data.subrange(i as int, width as int)[0]);
                lemma_le_bytes_len((rest / 256) as nat, (width - i - 1) as nat);
                assert(tail.drop_first() =~= le_bytes((rest / 256) as nat, (width - i - 1) as nat));
                assert(data.subrange(i + 1, width as int) =~= data.subrange(
                    i as int,
                    width as int,
                ).drop_first());
            }
            self.bytes.set(offset + i, (rest % 256) as u8);
            rest = rest / 256;
            i += 1;
        }
        assert(self@.bytes =~= old(self)@.store(addr, width as nat, value).bytes);
        Ok(())
    }
}

} // verus!
