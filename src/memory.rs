use vstd::prelude::*;

verus! {

/// The contents of `mem` after the `size` bytes at `source` have been
/// written at `destination`, every byte taken from `mem` as it was before
/// the first write.
pub open spec fn copied(mem: Seq<u8>, destination: int, source: int, size: int) -> Seq<u8> {
    Seq::new(
        mem.len(),
        |k: int|
            if destination <= k < destination + size {
                mem[source + (k - destination)]
            } else {
                mem[k]
            },
    )
}

/// `[start, start + size)` is a range of addresses within `len` bytes.
pub open spec fn in_bounds(start: int, size: int, len: int) -> bool {
    0 <= start && start + size <= len
}

/// The two ranges of `size` bytes at `a` and `b` share no byte.
pub open spec fn disjoint(a: int, b: int, size: int) -> bool {
    a + size <= b || b + size <= a
}

/// Copies `size` bytes from `source` to `destination`, lowest address first,
/// and returns `destination`. The two ranges must not overlap.
pub fn memcpy(memory: &mut [u8], destination: usize, source: usize, size: usize) -> (r: usize)
    requires
        in_bounds(destination as int, size as int, old(memory)@.len() as int),
        in_bounds(source as int, size as int, old(memory)@.len() as int),
        disjoint(destination as int, source as int, size as int),
    ensures
        r == destination,
        final(memory)@ == copied(old(memory)@, destination as int, source as int, size as int),
        final(memory)@.subrange(destination as int, destination + size)
            == old(memory)@.subrange(source as int, source + size),
{
    let ghost before = memory@;
    let len = memory.len();
    let mut index: usize = 0;
    while index < size
        invariant
            index <= size,
            memory@.len() == before.len(),
            before.len() == len,
            in_bounds(destination as int, size as int, before.len() as int),
            in_bounds(source as int, size as int, before.len() as int),
            disjoint(destination as int, source as int, size as int),
            forall|k: int|
                0 <= k < memory@.len() ==> #[trigger] memory@[k] == if destination <= k
                    < destination + index {
                    before[source + (k - destination)]
                } else {
                    before[k]
                },
        decreases size - index,
    {
        let byte = memory[source + index];
        memory[destination + index] = byte;
        index = index + 1;
    }
    assert(memory@ =~= copied(before, destination as int, source as int, size as int));
    assert(memory@.subrange(destination as int, destination + size) =~= before.subrange(
        source as int,
        source + size,
    ));
    destination
}

/// The byte that a fill with `value` writes: its low eight bits, that is
/// `value` modulo 256.
pub open spec fn low_byte(value: i32) -> u8 {
    (value as int % 256) as u8
}

/// Writes the low byte of `source_byte` into each of the `byte_count` bytes
/// at `destination`, and returns `destination`.
pub fn memset(memory: &mut [u8], destination: usize, source_byte: i32, byte_count: usize) -> (r:
    usize)
    requires
        in_bounds(destination as int, byte_count as int, old(memory)@.len() as int),
    ensures
        r == destination,
        final(memory)@.len() == old(memory)@.len(),
        final(memory)@.subrange(destination as int, destination + byte_count) == Seq::new(
            byte_count as nat,
            |k: int| low_byte(source_byte),
        ),
        forall|k: int|
            0 <= k < old(memory)@.len() && !(destination <= k < destination + byte_count)
                ==> #[trigger] final(memory)@[k] == old(memory)@[k],
{
    let byte: u8 = match source_byte.checked_rem_euclid(256) {
        Some(rest) => rest as u8,
        None => 0,
    };
    assert(byte == low_byte(source_byte));
    let ghost before = memory@;
    let len = memory.len();
    let mut index: usize = 0;
    while index < byte_count
        invariant
            index <= byte_count,
            memory@.len() == before.len(),
            before.len() == len,
            in_bounds(destination as int, byte_count as int, before.len() as int),
            byte == low_byte(source_byte),
            forall|k: int|
                0 <= k < memory@.len() ==> #[trigger] memory@[k] == if destination <= k
                    < destination + index {
                    byte
                } else {
                    before[k]
                },
        decreases byte_count - index,
    {
        memory[destination + index] = byte;
        index = index + 1;
    }
    assert(memory@.subrange(destination as int, destination + byte_count) =~= Seq::new(
        byte_count as nat,
        |k: int| low_byte(source_byte),
    ));
    destination
}

/// Copies `buffer_size` bytes from `source` to `destination` and returns
/// `destination`. The ranges may overlap: every byte written is the one that
/// stood at its source address before the call. Towards higher addresses the
/// copy runs from the last byte down, towards lower addresses from the first
/// byte up, so that no source byte is overwritten before it is read.
pub fn memmove(memory: &mut [u8], destination: usize, source: usize, buffer_size: usize) -> (r:
    usize)
    requires
        in_bounds(destination as int, buffer_size as int, old(memory)@.len() as int),
        in_bounds(source as int, buffer_size as int, old(memory)@.len() as int),
    ensures
        r == destination,
        final(memory)@ == copied(
            old(memory)@,
            destination as int,
            source as int,
            buffer_size as int,
        ),
        final(memory)@.subrange(destination as int, destination + buffer_size)
            == old(memory)@.subrange(source as int, source + buffer_size),
{
    let ghost before = memory@;
    let len = memory.len();
    if destination > source {
        let mut index: usize = buffer_size;
        while index > 0
            invariant
                index <= buffer_size,
                source < destination,
                memory@.len() == before.len(),
                before.len() == len,
                in_bounds(destination as int, buffer_size as int, before.len() as int),
                in_bounds(source as int, buffer_size as int, before.len() as int),
                forall|k: int|
                    0 <= k < memory@.len() ==> #[trigger] memory@[k] == if destination + index
                        <= k < destination + buffer_size {
                        before[source + (k - destination)]
                    } else {
                        before[k]
                    },
            decreases index,
        {
            index = index - 1;
            let byte = memory[source + index];
            memory[destination + index] = byte;
        }
    } else if destination < source {
        let mut index: usize = 0;
        while index < buffer_size
            invariant
                index <= buffer_size,
                destination < source,
                memory@.len() == before.len(),
                before.len() == len,
                in_bounds(destination as int, buffer_size as int, before.len() as int),
                in_bounds(source as int, buffer_size as int, before.len() as int),
                forall|k: int|
                    0 <= k < memory@.len() ==> #[trigger] memory@[k] == if destination <= k
                        < destination + index {
                        before[source + (k - destination)]
                    } else {
                        before[k]
                    },
            decreases buffer_size - index,
        {
            let byte = memory[source + index];
            memory[destination + index] = byte;
            index = index + 1;
        }
    }
    assert(memory@ =~= copied(before, destination as int, source as int, buffer_size as int));
    assert(memory@.subrange(destination as int, destination + buffer_size) =~= before.subrange(
        source as int,
        source + buffer_size,
    ));
    destination
}

/// `i` is the first index at which `x` and `y` differ.
pub open spec fn first_difference(x: Seq<u8>, y: Seq<u8>, i: int) -> bool {
    &&& 0 <= i < x.len()
    &&& i < y.len()
    &&& x[i] != y[i]
    &&& forall|j: int| 0 <= j < i ==> x[j] == y[j]
}

/// The lexicographic comparison of two byte strings over their common
/// length: `-1` where the first differing byte of `x` is the smaller, `1`
/// where it is the larger, `0` where no byte differs.
pub open spec fn compare_bytes(x: Seq<u8>, y: Seq<u8>) -> int {
    if exists|i: int| first_difference(x, y, i) {
        let i = choose|i: int| first_difference(x, y, i);
        if x[i] < y[i] {
            -1
        } else {
            1
        }
    } else {
        0
    }
}

/// Two indices that are both the first difference are the same.
proof fn lemma_first_difference_unique(x: Seq<u8>, y: Seq<u8>, i: int, j: int)
    requires
        first_difference(x, y, i),
        first_difference(x, y, j),
    ensures
        i == j,
{
    if i < j {
        assert(x[i] == y[i]);
    } else if j < i {
        assert(x[j] == y[j]);
    }
}

/// The comparison of two byte strings whose first difference is at `i`.
proof fn lemma_compare_at(x: Seq<u8>, y: Seq<u8>, i: int)
    requires
        first_difference(x, y, i),
    ensures
        compare_bytes(x, y) == if x[i] < y[i] {
            -1int
        } else {
            1
        },
{
    let c = choose|c: int| first_difference(x, y, c);
    lemma_first_difference_unique(x, y, i, c);
}

/// Comparing a byte string with itself gives `0`: no byte differs.
pub proof fn lemma_compare_reflexive(x: Seq<u8>)
    ensures
        compare_bytes(x, x) == 0,
{
}

/// Where `x` and `y` agree before `i` and the byte of `x` at `i` is one more
/// than that of `y`, `x` compares greater than `y`, and `y` less than `x`.
pub proof fn lemma_compare_first_greater(x: Seq<u8>, y: Seq<u8>, i: int)
    requires
        x.len() == y.len(),
        0 <= i < x.len(),
        forall|j: int| 0 <= j < i ==> x[j] == y[j],
        x[i] == y[i] + 1,
    ensures
        compare_bytes(x, y) > 0,
        compare_bytes(y, x) < 0,
{
    assert(first_difference(x, y, i));
    lemma_compare_at(x, y, i);
    assert(first_difference(y, x, i));
    lemma_compare_at(y, x, i);
}

/// Compares `bytes_past` bytes at `block1` with as many at `block2`, lowest
/// address first, and stops at the first pair that differs. Returns `-1`
/// where the byte of `block1` is the smaller there, `1` where it is the
/// larger, and `0` where all the bytes are equal.
pub fn memcmp(memory: &[u8], block1: usize, block2: usize, bytes_past: usize) -> (r: i32)
    requires
        in_bounds(block1 as int, bytes_past as int, memory@.len() as int),
        in_bounds(block2 as int, bytes_past as int, memory@.len() as int),
    ensures
        r as int == compare_bytes(
            memory@.subrange(block1 as int, block1 + bytes_past),
            memory@.subrange(block2 as int, block2 + bytes_past),
        ),
{
    let ghost x = memory@.subrange(block1 as int, block1 + bytes_past);
    let ghost y = memory@.subrange(block2 as int, block2 + bytes_past);
    let len = memory.len();
    let mut index: usize = 0;
    while index < bytes_past
        invariant
            index <= bytes_past,
            memory@.len() == len,
            in_bounds(block1 as int, bytes_past as int, len as int),
            in_bounds(block2 as int, bytes_past as int, len as int),
            x == memory@.subrange(block1 as int, block1 + bytes_past),
            y == memory@.subrange(block2 as int, block2 + bytes_past),
            forall|j: int| 0 <= j < index ==> x[j] == y[j],
        decreases bytes_past - index,
    {
        let one = memory[block1 + index];
        let two = memory[block2 + index];
        if one != two {
            proof {
                assert(first_difference(x, y, index as int));
                lemma_compare_at(x, y, index as int);
            }
            return if one < two {
                -1
            } else {
                1
            };
        }
        index = index + 1;
    }
    assert(!exists|i: int| first_difference(x, y, i));
    0
}

} // verus!
