//! Machine words as bytes, and a byte-addressed model of a traced process's memory.
//!
//! The tracee's memory is reached one word at a time. A word holds eight bytes, the byte at
//! the lowest address in the low eight bits.

use vstd::prelude::*;

verus! {

/// Bytes in a word.
pub const WORD_SIZE: usize = 8;

/// The byte of `w` that lies `i` bytes above the word's address.
pub open spec fn byte_of(w: u64, i: int) -> u8 {
    if i == 0 {
        (w % 0x100) as u8
    } else if i == 1 {
        (w / 0x100 % 0x100) as u8
    } else if i == 2 {
        (w / 0x1_0000 % 0x100) as u8
    } else if i == 3 {
        (w / 0x100_0000 % 0x100) as u8
    } else if i == 4 {
        (w / 0x1_0000_0000 % 0x100) as u8
    } else if i == 5 {
        (w / 0x100_0000_0000 % 0x100) as u8
    } else if i == 6 {
        (w / 0x1_0000_0000_0000 % 0x100) as u8
    } else {
        (w / 0x100_0000_0000_0000 % 0x100) as u8
    }
}

/// The eight bytes of a word, lowest address first.
pub open spec fn word_bytes(w: u64) -> Seq<u8> {
    Seq::new(8, |i: int| byte_of(w, i))
}

/// The word made of the first eight bytes of `b`.
pub open spec fn word_of(b: Seq<u8>) -> u64
    recommends
        b.len() >= 8,
{
    (b[0] as int + b[1] as int * 0x100 + b[2] as int * 0x1_0000 + b[3] as int * 0x100_0000 + b[4] as int
        * 0x1_0000_0000 + b[5] as int * 0x100_0000_0000 + b[6] as int * 0x1_0000_0000_0000
        + b[7] as int * 0x100_0000_0000_0000) as u64
}

/// A word keeps the bytes it was made of.
pub proof fn lemma_word_bytes_of(b: Seq<u8>)
    requires
        b.len() == 8,
    ensures
        word_bytes(word_of(b)) == b,
{
    let q7: int = b[7] as int;
    let q6: int = b[6] as int + 0x100 * q7;
    let q5: int = b[5] as int + 0x100 * q6;
    let q4: int = b[4] as int + 0x100 * q5;
    let q3: int = b[3] as int + 0x100 * q4;
    let q2: int = b[2] as int + 0x100 * q3;
    let q1: int = b[1] as int + 0x100 * q2;
    let q0: int = b[0] as int + 0x100 * q1;
    assert(0 <= q7 < 0x100);
    assert(0 <= q6 < 0x1_0000);
    assert(0 <= q5 < 0x100_0000);
    assert(0 <= q4 < 0x1_0000_0000);
    assert(0 <= q3 < 0x100_0000_0000);
    assert(0 <= q2 < 0x1_0000_0000_0000);
    assert(0 <= q1 < 0x100_0000_0000_0000);
    assert(0 <= q0 < 0x1_0000_0000_0000_0000);
    let w = word_of(b);
    assert(w == q0);
    assert(w / 0x100 == q1);
    assert(w / 0x1_0000 == q2) by {
        assert(w == b[0] as int + 0x100 * b[1] as int + 0x1_0000 * q2);
    }
    assert(w / 0x100_0000 == q3) by {
        assert(w == b[0] as int + 0x100 * b[1] as int + 0x1_0000 * b[2] as int + 0x100_0000 * q3);
    }
    assert(w / 0x1_0000_0000 == q4) by {
        assert(w == b[0] as int + 0x100 * b[1] as int + 0x1_0000 * b[2] as int + 0x100_0000
            * b[3] as int + 0x1_0000_0000 * q4);
    }
    assert(w / 0x100_0000_0000 == q5) by {
        assert(w == b[0] as int + 0x100 * b[1] as int + 0x1_0000 * b[2] as int + 0x100_0000
            * b[3] as int + 0x1_0000_0000 * b[4] as int + 0x100_0000_0000 * q5);
    }
    assert(w / 0x1_0000_0000_0000 == q6) by {
        assert(w == b[0] as int + 0x100 * b[1] as int + 0x1_0000 * b[2] as int + 0x100_0000
            * b[3] as int + 0x1_0000_0000 * b[4] as int + 0x100_0000_0000 * b[5] as int
            + 0x1_0000_0000_0000 * q6);
    }
    assert(w / 0x100_0000_0000_0000 == q7) by {
        assert(w == b[0] as int + 0x100 * b[1] as int + 0x1_0000 * b[2] as int + 0x100_0000
            * b[3] as int + 0x1_0000_0000 * b[4] as int + 0x100_0000_0000 * b[5] as int
            + 0x1_0000_0000_0000 * b[6] as int + 0x100_0000_0000_0000 * q7);
    }
    assert(byte_of(w, 0) == b[0]);
    assert(byte_of(w, 1) == b[1]);
    assert(byte_of(w, 2) == b[2]);
    assert(byte_of(w, 3) == b[3]);
    assert(byte_of(w, 4) == b[4]);
    assert(byte_of(w, 5) == b[5]);
    assert(byte_of(w, 6) == b[6]);
    assert(byte_of(w, 7) == b[7]);
    assert(word_bytes(w) =~= b);
}

/// `old` with its low bytes replaced by `tail`.
pub open spec fn overlay(old: u64, tail: Seq<u8>) -> u64
    recommends
        tail.len() <= 8,
{
    word_of(tail + word_bytes(old).subrange(tail.len() as int, 8))
}

/// Reads the word whose bytes are `b[at..at + 8]`.
pub fn word_at(b: &[u8], at: usize) -> (w: u64)
    requires
        at + 8 <= b@.len(),
    ensures
        w == word_of(b@.subrange(at as int, at + 8)),
{
    let ghost s = b@.subrange(at as int, at + 8);
    assert(s[0] == b@[at as int] && s[1] == b@[at + 1] && s[2] == b@[at + 2] && s[3] == b@[at + 3]
        && s[4] == b@[at + 4] && s[5] == b@[at + 5] && s[6] == b@[at + 6] && s[7] == b@[at + 7]);
    let w: u64 = b[at] as u64 + b[at + 1] as u64 * 0x100 + b[at + 2] as u64 * 0x1_0000 + b[at
        + 3] as u64 * 0x100_0000 + b[at + 4] as u64 * 0x1_0000_0000 + b[at + 5] as u64
        * 0x100_0000_0000 + b[at + 6] as u64 * 0x1_0000_0000_0000 + b[at + 7] as u64
        * 0x100_0000_0000_0000;
    w
}

/// The eight bytes of `w`, lowest address first.
pub fn bytes_of_word(w: u64) -> (r: Vec<u8>)
    ensures
        r@ == word_bytes(w),
{
    let mut r: Vec<u8> = Vec::with_capacity(8);
    r.push((w % 0x100) as u8);
    r.push((w / 0x100 % 0x100) as u8);
    r.push((w / 0x1_0000 % 0x100) as u8);
    r.push((w / 0x100_0000 % 0x100) as u8);
    r.push((w / 0x1_0000_0000 % 0x100) as u8);
    r.push((w / 0x100_0000_0000 % 0x100) as u8);
    r.push((w / 0x1_0000_0000_0000 % 0x100) as u8);
    r.push((w / 0x100_0000_0000_0000 % 0x100) as u8);
    assert(r@ =~= word_bytes(w));
    r
}

/// Replaces the low bytes of `old` by `tail` and keeps the others.
pub fn overlay_tail(old: u64, tail: &[u8]) -> (w: u64)
    requires
        tail@.len() <= 8,
    ensures
        w == overlay(old, tail@),
{
    let mut bytes = bytes_of_word(old);
    let mut i: usize = 0;
    while i < tail.len()
        invariant
            i <= tail@.len() <= 8,
            bytes@.len() == 8,
            bytes@ == tail@.subrange(0, i as int) + word_bytes(old).subrange(i as int, 8),
        decreases tail@.len() - i,
    {
        bytes[i] = tail[i];
        i += 1;
        assert(bytes@ =~= tail@.subrange(0, i as int) + word_bytes(old).subrange(i as int, 8));
    }
    assert(tail@.subrange(0, i as int) =~= tail@);
    let w = word_at(bytes.as_slice(), 0);
    assert(bytes@.subrange(0, 8) =~= bytes@);
    w
}

/// Memory of a process: the byte at each address.
pub type Memory = Map<int, u8>;

/// The word that a peek at `addr` returns.
pub open spec fn peek(mem: Memory, addr: int) -> u64 {
    word_of(Seq::new(8, |i: int| mem[addr + i]))
}

/// Memory after a poke of `w` at `addr`.
pub open spec fn poke(mem: Memory, addr: int, w: u64) -> Memory {
    Map::new(
        |a: int| true,
        |a: int|
            if addr <= a < addr + 8 {
                byte_of(w, a - addr)
            } else {
                mem[a]
            },
    )
}

/// Memory with `data` laid over it from `addr` on.
pub open spec fn stored(mem: Memory, addr: int, data: Seq<u8>) -> Memory {
    Map::new(
        |a: int| true,
        |a: int|
            if addr <= a < addr + data.len() {
                data[a - addr]
            } else {
                mem[a]
            },
    )
}

/// The `n` bytes of memory from `addr` on.
pub open spec fn loaded(mem: Memory, addr: int, n: nat) -> Seq<u8> {
    Seq::new(n, |i: int| mem[addr + i])
}

/// Memory after the whole words of `data` were poked one by one from `addr` on, the first
/// `done` of them.
pub open spec fn poke_words(mem: Memory, addr: int, data: Seq<u8>, done: nat) -> Memory
    decreases done,
{
    if done == 0 {
        mem
    } else {
        let k: int = done - 1;
        poke(
            poke_words(mem, addr, data, k as nat),
            addr + 8 * k,
            word_of(data.subrange(8 * k, 8 * k + 8)),
        )
    }
}

/// Memory after `data` was written at `addr` in word-sized chunks: a poke for each whole word,
/// then, for a shorter rest, a peek of the word there and a poke of that word with its low
/// bytes replaced.
pub open spec fn write_data_spec(mem: Memory, addr: int, data: Seq<u8>) -> Memory {
    let cnt: int = data.len() as int / 8;
    let body = poke_words(mem, addr, data, cnt as nat);
    if data.len() % 8 == 0 {
        body
    } else {
        let at = addr + 8 * cnt;
        poke(body, at, overlay(peek(body, at), data.subrange(8 * cnt, data.len() as int)))
    }
}

/// What a read of `size` bytes at `addr` in word-sized chunks returns: the bytes of a peek for
/// each whole word, then the low bytes of one more peek for a shorter rest.
pub open spec fn read_data_spec(mem: Memory, addr: int, size: nat) -> Seq<u8> {
    Seq::new(size, |i: int| byte_of(peek(mem, addr + 8 * (i / 8)), i % 8))
}

proof fn lemma_peek_bytes(mem: Memory, addr: int, i: int)
    requires
        0 <= i < 8,
    ensures
        byte_of(peek(mem, addr), i) == mem[addr + i],
{
    let b = Seq::new(8, |i: int| mem[addr + i]);
    lemma_word_bytes_of(b);
    assert(word_bytes(peek(mem, addr))[i] == b[i]);
}

proof fn lemma_poke_words(mem: Memory, addr: int, data: Seq<u8>, done: nat, a: int)
    requires
        8 * done <= data.len(),
    ensures
        poke_words(mem, addr, data, done)[a] == if addr <= a < addr + 8 * done {
            data[a - addr]
        } else {
            mem[a]
        },
    decreases done,
{
    if done > 0 {
        let k: int = done - 1;
        lemma_poke_words(mem, addr, data, k as nat, a);
        let chunk = data.subrange(8 * k, 8 * k + 8);
        lemma_word_bytes_of(chunk);
        if addr + 8 * k <= a < addr + 8 * k + 8 {
            assert(word_bytes(word_of(chunk))[a - (addr + 8 * k)] == chunk[a - (addr + 8 * k)]);
        }
    }
}

/// Writing in word-sized chunks stores exactly the data: the bytes from `addr` on become
/// `data`, and every other byte of memory keeps its value, also when the length of `data` is
/// no multiple of the word size.
pub proof fn lemma_write_data_stores(mem: Memory, addr: int, data: Seq<u8>, a: int)
    ensures
        write_data_spec(mem, addr, data)[a] == stored(mem, addr, data)[a],
{
    let cnt: int = data.len() as int / 8;
    let body = poke_words(mem, addr, data, cnt as nat);
    lemma_poke_words(mem, addr, data, cnt as nat, a);
    if data.len() % 8 != 0 {
        let at = addr + 8 * cnt;
        let tail = data.subrange(8 * cnt, data.len() as int);
        let old = peek(body, at);
        let merged = tail + word_bytes(old).subrange(tail.len() as int, 8);
        lemma_word_bytes_of(merged);
        if at <= a < at + 8 {
            let i = a - at;
            assert(byte_of(overlay(old, tail), i) == word_bytes(word_of(merged))[i]);
            if i < tail.len() {
                assert(merged[i] == tail[i]);
            } else {
                assert(merged[i] == word_bytes(old)[i]);
                lemma_peek_bytes(body, at, i);
            }
        }
    }
}

/// Reading in word-sized chunks returns the bytes that memory holds.
pub proof fn lemma_read_data_loads(mem: Memory, addr: int, size: nat)
    ensures
        read_data_spec(mem, addr, size) == loaded(mem, addr, size),
{
    assert forall|i: int| 0 <= i < size implies read_data_spec(mem, addr, size)[i] == loaded(
        mem,
        addr,
        size,
    )[i] by {
        lemma_peek_bytes(mem, addr + 8 * (i / 8), i % 8);
    }
    assert(read_data_spec(mem, addr, size) =~= loaded(mem, addr, size));
}

/// A read in word-sized chunks returns what a write in word-sized chunks at the same
/// address stored, whatever the length of the data and whatever memory held before.
pub proof fn lemma_read_after_write(mem: Memory, addr: int, data: Seq<u8>)
    ensures
        read_data_spec(write_data_spec(mem, addr, data), addr, data.len()) == data,
{
    let after = write_data_spec(mem, addr, data);
    lemma_read_data_loads(after, addr, data.len());
    assert forall|i: int| 0 <= i < data.len() implies loaded(after, addr, data.len())[i]
        == data[i] by {
        lemma_write_data_stores(mem, addr, data, addr + i);
    }
    assert(loaded(after, addr, data.len()) =~= data);
}

/// A write in word-sized chunks leaves every byte outside the written range as it was.
pub proof fn lemma_write_keeps_rest(mem: Memory, addr: int, data: Seq<u8>, a: int)
    requires
        a < addr || a >= addr + data.len(),
    ensures
        write_data_spec(mem, addr, data)[a] == mem[a],
{
    lemma_write_data_stores(mem, addr, data, a);
}

} // verus!
