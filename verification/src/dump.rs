//! Dumping the memory and the EEPROM of an appliance into a file.
//!
//! A dump is resumed where the file ends: the byte at an offset in the file is
//! the byte at that offset from the start of the address range.
use crate::text;
use vstd::prelude::*;
use vstd::string::StringExecFns;

verus! {

/// How many bytes are read at once.
pub const BLOCK_SIZE: u32 = 0x80;

/// The last address of the memory range, which starts at zero.
pub const MEMORY_END: u32 = 0xffff;

/// The last address of the EEPROM range, which starts at zero.
pub const EEPROM_END: u32 = 0x07ff;

/// The file is longer than any address.
#[derive(Clone, Copy, Debug, PartialEq, Eq, Structural)]
pub struct OffsetTooLarge;

/// How many blocks are read from `offset` on, up to the address `end`.
pub open spec fn block_count(offset: int, end: int) -> int {
    if offset <= end {
        (end - offset) / BLOCK_SIZE as int + 1
    } else {
        0
    }
}

/// The addresses of the blocks that are read when the file has `offset` bytes.
pub open spec fn block_addresses(offset: int, end: int) -> Seq<int> {
    Seq::new(block_count(offset, end) as nat, |k: int| offset + k * BLOCK_SIZE)
}

proof fn lemma_next_block(offset: int, end: int, count: int)
    requires
        0 <= offset,
        0 <= count,
    ensures
        offset + count * BLOCK_SIZE <= end <==> count < block_count(offset, end),
{
    assert(BLOCK_SIZE == 0x80);
}

/// The addresses of the memory blocks that are left to read, when the file has
/// this length.
pub fn memory_addresses(file_len: u64) -> (res: Result<Vec<u32>, OffsetTooLarge>)
    ensures
        res is Err <==> file_len > u32::MAX,
        res matches Ok(addrs) ==> addrs@.map_values(|a: u32| a as int) == block_addresses(
            file_len as int,
            MEMORY_END as int,
        ),
{
    if file_len > u32::MAX as u64 {
        return Err(OffsetTooLarge);
    }
    let mut addr: u32 = file_len as u32;
    let mut addrs: Vec<u32> = Vec::new();
    proof {
        lemma_next_block(file_len as int, MEMORY_END as int, 0);
    }
    while addr <= MEMORY_END
        invariant
            addr == file_len + addrs@.len() * BLOCK_SIZE,
            addrs@.len() <= block_count(file_len as int, MEMORY_END as int),
            forall|k: int|
                #![trigger addrs@[k]]
                0 <= k < addrs@.len() ==> addrs@[k] == file_len + k * BLOCK_SIZE,
        decreases MEMORY_END + BLOCK_SIZE - addr,
    {
        proof {
            lemma_next_block(file_len as int, MEMORY_END as int, addrs@.len() as int);
        }
        addrs.push(addr);
        addr = addr + BLOCK_SIZE;
    }
    proof {
        lemma_next_block(file_len as int, MEMORY_END as int, addrs@.len() as int);
        assert(addrs@.map_values(|a: u32| a as int) =~= block_addresses(
            file_len as int,
            MEMORY_END as int,
        ));
    }
    Ok(addrs)
}

/// The addresses of the EEPROM blocks that are left to read, when the file has
/// this length.
pub fn eeprom_addresses(file_len: u64) -> (res: Result<Vec<u16>, OffsetTooLarge>)
    ensures
        res is Err <==> file_len > u16::MAX,
        res matches Ok(addrs) ==> addrs@.map_values(|a: u16| a as int) == block_addresses(
            file_len as int,
            EEPROM_END as int,
        ),
{
    if file_len > u16::MAX as u64 {
        return Err(OffsetTooLarge);
    }
    let mut addr: u32 = file_len as u32;
    let mut addrs: Vec<u16> = Vec::new();
    proof {
        lemma_next_block(file_len as int, EEPROM_END as int, 0);
    }
    while addr <= EEPROM_END
        invariant
            addr == file_len + addrs@.len() * BLOCK_SIZE,
            addrs@.len() <= block_count(file_len as int, EEPROM_END as int),
            forall|k: int|
                #![trigger addrs@[k]]
                0 <= k < addrs@.len() ==> addrs@[k] == file_len + k * BLOCK_SIZE,
        decreases EEPROM_END + BLOCK_SIZE - addr,
    {
        proof {
            lemma_next_block(file_len as int, EEPROM_END as int, addrs@.len() as int);
        }
        addrs.push(addr as u16);
        addr = addr + BLOCK_SIZE;
    }
    proof {
        lemma_next_block(file_len as int, EEPROM_END as int, addrs@.len() as int);
        assert(addrs@.map_values(|a: u16| a as int) =~= block_addresses(
            file_len as int,
            EEPROM_END as int,
        ));
    }
    Ok(addrs)
}

/// The word of the EEPROM that holds the byte at an address.
pub open spec fn spec_eeprom_word(addr: int) -> int {
    addr / 2
}

/// The word of the EEPROM that holds the byte at an address.
pub fn eeprom_word(addr: u16) -> (res: u16)
    ensures
        res == spec_eeprom_word(addr as int),
        res == addr / 2,
        2 * res <= addr < 2 * res + 2,
{
    addr / 2
}

/// The line that tells which memory block is being read.
pub open spec fn memory_line(addr: nat) -> Seq<char> {
    "Reading memory address "@ + text::zero_padded(text::numeral(addr, 16), 8)
}

/// The line that tells which EEPROM block is being read.
pub open spec fn eeprom_line(addr: nat) -> Seq<char> {
    "Reading EEPROM address "@ + text::zero_padded(text::numeral(addr, 16), 4)
}

/// The line that tells which memory block is being read.
pub fn memory_progress(addr: u32) -> (res: String)
    ensures
        res@ == memory_line(addr as nat),
        res@ == "Reading memory address "@ + text::zero_padded(
            text::numeral(addr as nat, 16),
            8,
        ),
{
    let mut line = String::from_str("Reading memory address ");
    text::push_numeral(&mut line, addr as u64, 16, 8);
    line
}

/// The line that tells which EEPROM block is being read.
pub fn eeprom_progress(addr: u16) -> (res: String)
    ensures
        res@ == eeprom_line(addr as nat),
        res@ == "Reading EEPROM address "@ + text::zero_padded(
            text::numeral(addr as nat, 16),
            4,
        ),
{
    let mut line = String::from_str("Reading EEPROM address ");
    text::push_numeral(&mut line, addr as u64, 16, 4);
    line
}

/// An interrupted dump is resumed: when `done` blocks have been written after
/// `offset` bytes, the blocks that are left are those which the interrupted
/// dump had not read yet.
pub proof fn law_resume(offset: int, end: int, done: int)
    requires
        0 <= offset,
        0 <= done <= block_count(offset, end),
    ensures
        block_addresses(offset + done * BLOCK_SIZE, end) == block_addresses(offset, end).skip(done),
{
    lemma_next_block(offset, end, done);
    assert(block_addresses(offset + done * BLOCK_SIZE, end) =~= block_addresses(offset, end).skip(
        done,
    ));
}

/// A complete dump leaves nothing to read, and covers the whole range: with
/// `offset` bytes there to begin with, each address up to `end` lies in one of
/// the blocks.
pub proof fn law_coverage(offset: int, end: int, addr: int)
    requires
        0 <= offset <= addr <= end,
    ensures
        ({
            let k = (addr - offset) / BLOCK_SIZE as int;
            let blocks = block_addresses(offset, end);
            &&& 0 <= k < blocks.len()
            &&& blocks[k] <= addr < blocks[k] + BLOCK_SIZE
        }),
        block_addresses(offset + block_count(offset, end) * BLOCK_SIZE, end) == Seq::<int>::empty(),
{
    let n = block_count(offset, end);
    lemma_next_block(offset, end, n);
    assert(block_addresses(offset + n * BLOCK_SIZE, end) =~= Seq::<int>::empty());
}

/// When a dump of the EEPROM is resumed at an even offset, each block starts
/// with the first byte of the word that is read.
pub proof fn law_eeprom_words(offset: int, k: int)
    requires
        0 <= offset,
        offset % 2 == 0,
        0 <= k < block_addresses(offset, EEPROM_END as int).len(),
    ensures
        block_addresses(offset, EEPROM_END as int)[k] / 2 * 2 == block_addresses(
            offset,
            EEPROM_END as int,
        )[k],
{
}

/// The blocks start at the end of the file, follow each other without a gap,
/// start within the range, and are just as many as it takes to reach its end.
pub proof fn law_blocks_tile_the_range(offset: int, end: int)
    requires
        0 <= offset,
    ensures
        ({
            let blocks = block_addresses(offset, end);
            &&& blocks.len() == 0 <==> offset > end
            &&& blocks.len() > 0 ==> blocks[0] == offset
            &&& forall|j: int, k: int|
                #![trigger blocks[j], blocks[k]]
                0 <= j && k == j + 1 && k < blocks.len() ==> blocks[k] == blocks[j] + 0x80
            &&& blocks.len() > 0 ==> blocks.last() <= end < blocks.last() + 0x80
        }),
{
    let n = block_count(offset, end);
    if n > 0 {
        lemma_next_block(offset, end, n - 1);
        lemma_next_block(offset, end, n);
    }
}

/// The word that is read for an address holds the byte at that address, and
/// neighbouring bytes share a word two by two.
pub proof fn law_word_holds_the_byte(addr: int)
    requires
        0 <= addr,
    ensures
        2 * spec_eeprom_word(addr) <= addr < 2 * spec_eeprom_word(addr) + 2,
{
}

/// The lines end with the address in hexadecimal digits that read as it, eight
/// of them for the memory and four for the EEPROM, after a fixed text.
pub proof fn law_lines_show_the_address(addr: u32, other: u16)
    ensures
        ({
            let start = "Reading memory address "@.len() as int;
            &&& memory_line(addr as nat).take(start) == "Reading memory address "@
            &&& memory_line(addr as nat).skip(start).len() >= 8
            &&& memory_line(addr as nat).skip(start).len() > 8 ==> memory_line(addr as nat)[start]
                != '0'
            &&& text::reads_as(memory_line(addr as nat).skip(start), 16, addr as int)
        }),
        ({
            let start = "Reading EEPROM address "@.len() as int;
            &&& eeprom_line(other as nat).take(start) == "Reading EEPROM address "@
            &&& eeprom_line(other as nat).skip(start).len() >= 4
            &&& eeprom_line(other as nat).skip(start).len() > 4 ==> eeprom_line(other as nat)[start]
                != '0'
            &&& text::reads_as(eeprom_line(other as nat).skip(start), 16, other as int)
        }),
{
    text::law_numeral_is_plain(addr as nat, 16);
    text::law_numeral_is_plain(other as nat, 16);
    text::law_padded_numeral_is_plain(addr as nat, 16, 8);
    text::law_padded_numeral_is_plain(other as nat, 16, 4);
    let memory = "Reading memory address "@;
    let eeprom = "Reading EEPROM address "@;
    assert(memory_line(addr as nat).take(memory.len() as int) =~= memory);
    assert(memory_line(addr as nat).skip(memory.len() as int) =~= text::zero_padded(
        text::numeral(addr as nat, 16),
        8,
    ));
    assert(eeprom_line(other as nat).take(eeprom.len() as int) =~= eeprom);
    assert(eeprom_line(other as nat).skip(eeprom.len() as int) =~= text::zero_padded(
        text::numeral(other as nat, 16),
        4,
    ));
}

} // verus!
