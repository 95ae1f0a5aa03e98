//! Live random access to the logical byte stream of a CHD image: hunks are decoded on
//! demand, and the most recently used ones are kept in a cache of bounded size.
use vstd::prelude::*;

use crate::model::error::IoError;

verus! {

/// How many decoded hunks a reader keeps unless it is told otherwise.
pub const DEFAULT_CACHE_HUNKS: usize = 4;

/// A decoder of the fixed-size hunks that make up a logical byte stream.
pub trait HunkSource {
    /// Bytes in each hunk.
    fn hunk_size(&self) -> u32;

    /// Length of the logical byte stream.
    fn logical_bytes(&self) -> u64;

    /// Decodes hunk `index` into `output`, which holds one hunk.
    fn read_hunk(&mut self, index: u32, output: &mut [u8]) -> (r: Result<(), IoError>)
        ensures
            final(output)@.len() == old(output)@.len(),
    ;
}

/// The cache order, oldest first, after hunk `index` is used: a cached hunk moves to the
/// back; a new one is appended, after the oldest is evicted from a full cache.
pub open spec fn lru_touch(cache: Seq<u32>, index: u32, capacity: nat) -> Seq<u32> {
    if cache.contains(index) {
        cache.remove(cache.index_of(index)).push(index)
    } else if cache.len() >= capacity {
        cache.drop_first().push(index)
    } else {
        cache.push(index)
    }
}

/// The cache order after the hunks `first..=last` are used in ascending order.
pub open spec fn touch_range(cache: Seq<u32>, first: int, last: int, capacity: nat) -> Seq<u32>
    decreases last - first + 1,
{
    if last < first {
        cache
    } else {
        lru_touch(touch_range(cache, first, last - 1, capacity), last as u32, capacity)
    }
}

/// The byte at logical position `p`, as the hunk holding it was last delivered.
pub open spec fn delivered_byte(delivered: Map<u32, Seq<u8>>, hunk_len: nat, p: int) -> u8 {
    delivered[(p / (hunk_len as int)) as u32][p % (hunk_len as int)]
}

/// The hunk holding logical position `p`.
pub open spec fn hunk_of(p: int, hunk_len: nat) -> int {
    p / (hunk_len as int)
}

/// How many bytes a read of `buffer_len` bytes at `offset` yields from a stream of
/// `logical` bytes.
pub open spec fn read_len(logical: nat, offset: u64, buffer_len: nat) -> nat {
    if offset >= logical || buffer_len == 0 {
        0
    } else if buffer_len < logical - offset {
        buffer_len
    } else {
        (logical - offset) as nat
    }
}

/// Reads a CHD's logical bytes through a cache of recently decoded hunks.
pub struct ChdReader<S: HunkSource> {
    source: S,
    hunk_size: u64,
    logical_bytes: u64,
    cache_capacity: usize,
    cache: Vec<(u32, Vec<u8>)>,
    delivered: Ghost<Map<u32, Seq<u8>>>,
}

proof fn lemma_position(p: int, hunk: int, h: int, o: int)
    requires
        hunk > 0,
        0 <= o < hunk,
        p == hunk * h + o,
    ensures
        p / hunk == h,
        p % hunk == o,
{
    vstd::arithmetic::mul::lemma_mul_is_commutative(hunk, h);
    vstd::arithmetic::div_mod::lemma_fundamental_div_mod_converse(p, hunk, h, o);
}

impl<S: HunkSource> ChdReader<S> {
    /// The cached hunks, least recently used first.
    pub closed spec fn cached(&self) -> Seq<u32> {
        self.cache@.map_values(|e: (u32, Vec<u8>)| e.0)
    }

    /// For each hunk read so far, the bytes the source delivered for it last.
    pub closed spec fn delivered(&self) -> Map<u32, Seq<u8>> {
        self.delivered@
    }

    pub closed spec fn hunk_len(&self) -> nat {
        self.hunk_size as nat
    }

    pub closed spec fn logical_len(&self) -> nat {
        self.logical_bytes as nat
    }

    pub closed spec fn capacity(&self) -> nat {
        self.cache_capacity as nat
    }

    pub closed spec fn source(&self) -> S {
        self.source
    }

    /// Non-zero hunk size and capacity; at most `capacity` hunks cached, none twice,
    /// each as its last delivery.
    pub closed spec fn well_formed(&self) -> bool {
        &&& 0 < self.hunk_size <= u32::MAX
        &&& self.cache_capacity > 0
        &&& self.cache@.len() <= self.cache_capacity
        &&& forall|i: int, j: int| 0 <= i < j < self.cache@.len() ==> (#[trigger] self.cache@[i]).0 != (#[trigger] self.cache@[j]).0
        &&& forall|i: int| 0 <= i < self.cache@.len() ==> {
            &&& (#[trigger] self.cache@[i]).1@.len() == self.hunk_size
            &&& self.delivered@.contains_key(self.cache@[i].0)
            &&& self.delivered@[self.cache@[i].0] == self.cache@[i].1@
        }
    }

    /// The cache never holds more hunks than its capacity, nor one hunk twice.
    pub proof fn lemma_cache_bounded(&self)
        requires
            self.well_formed(),
        ensures
            self.cached().len() <= self.capacity(),
            self.cached().no_duplicates(),
            forall|i: int| 0 <= i < self.cached().len() ==> self.delivered().contains_key(#[trigger] self.cached()[i]),
    {
        assert forall|i: int, j: int| 0 <= i < self.cached().len() && 0 <= j < self.cached().len() && i != j
            implies self.cached()[i] != self.cached()[j] by {
            if i < j {
                assert(self.cache@[i].0 != self.cache@[j].0);
            } else {
                assert(self.cache@[j].0 != self.cache@[i].0);
            }
        }
        assert forall|i: int| 0 <= i < self.cached().len() implies self.delivered().contains_key(#[trigger] self.cached()[i]) by {
            assert(self.cache@[i].1@.len() == self.hunk_size);
        }
    }

    /// A reader over `source` that keeps up to `cache_capacity` decoded hunks; the hunk
    /// size and the capacity must be non-zero.
    pub fn from_source(source: S, cache_capacity: usize) -> (r: Result<Self, IoError>)
        ensures
            cache_capacity == 0 ==> (r matches Err(e) && e.kind == std::io::ErrorKind::InvalidInput
                && e.message@ == "CHD hunk size and cache capacity must be non-zero"@),
            r matches Err(e) ==> e.kind == std::io::ErrorKind::InvalidInput
                && e.message@ == "CHD hunk size and cache capacity must be non-zero"@,
            r matches Ok(reader) ==> {
                &&& reader.well_formed()
                &&& reader.cached().len() == 0
                &&& reader.capacity() == cache_capacity
                &&& reader.hunk_len() > 0
                &&& reader.source() == source
            },
    {
        let hunk_size = source.hunk_size() as u64;
        if hunk_size == 0 || cache_capacity == 0 {
            return Err(IoError::new(
                std::io::ErrorKind::InvalidInput,
                String::from_str("CHD hunk size and cache capacity must be non-zero"),
            ));
        }
        let logical_bytes = source.logical_bytes();
        let reader = ChdReader {
            source,
            hunk_size,
            logical_bytes,
            cache_capacity,
            cache: Vec::new(),
            delivered: Ghost(Map::empty()),
        };
        assert(reader.cached() =~= Seq::<u32>::empty());
        Ok(reader)
    }

    /// Makes hunk `index` the most recently used cached hunk, decoding it unless it is
    /// cached already.
    fn ensure_hunk(&mut self, index: u32) -> (r: Result<(), IoError>)
        requires
            old(self).well_formed(),
        ensures
            final(self).well_formed(),
            final(self).hunk_len() == old(self).hunk_len(),
            final(self).logical_len() == old(self).logical_len(),
            final(self).capacity() == old(self).capacity(),
            old(self).cached().contains(index) ==> r is Ok && final(self).source() == old(self).source()
                && final(self).delivered() == old(self).delivered(),
            r is Ok ==> final(self).cache@.len() > 0,
            r is Ok ==> final(self).cached() == lru_touch(old(self).cached(), index, old(self).capacity())
                && final(self).delivered().contains_key(index)
                && final(self).delivered().remove(index) == old(self).delivered().remove(index)
                && final(self).cache@.last().0 == index,
            r is Err ==> final(self).cached() == old(self).cached() && final(self).delivered() == old(self).delivered(),
    {
        let ghost before = self.cached();
        let mut position: usize = 0;
        while position < self.cache.len() && self.cache[position].0 != index
            invariant
                position <= self.cache@.len(),
                forall|j: int| 0 <= j < position ==> (#[trigger] self.cache@[j]).0 != index,
            decreases self.cache@.len() - position,
        {
            position = position + 1;
        }
        if position < self.cache.len() {
            let ghost old_cache = self.cache@;
            proof {
                assert(before[position as int] == index);
                assert(before.contains(index));
                let k = before.index_of(index);
                assert(0 <= k < before.len() && before[k] == index);
                if k != position as int {
                    if k < position as int {
                        assert(old_cache[k].0 != old_cache[position as int].0);
                    } else {
                        assert(old_cache[position as int].0 != old_cache[k].0);
                    }
                }
            }
            let entry = self.cache.remove(position);
            self.cache.push(entry);
            proof {
                assert(self.cached() =~= before.remove(position as int).push(index));
                assert forall|i: int, j: int| 0 <= i < j < self.cache@.len() implies (#[trigger] self.cache@[i]).0 != (#[trigger] self.cache@[j]).0 by {
                    let oi = if i < position { i } else { i + 1 };
                    let oj = if j == self.cache@.len() - 1 { position as int } else if j < position { j } else { j + 1 };
                    assert(self.cache@[i] == old_cache[oi]);
                    assert(self.cache@[j] == old_cache[oj]);
                    if oi < oj {
                        assert(old_cache[oi].0 != old_cache[oj].0);
                    } else {
                        assert(old_cache[oj].0 != old_cache[oi].0);
                    }
                }
                assert forall|i: int| 0 <= i < self.cache@.len() implies {
                    &&& (#[trigger] self.cache@[i]).1@.len() == self.hunk_size
                    &&& self.delivered@.contains_key(self.cache@[i].0)
                    &&& self.delivered@[self.cache@[i].0] == self.cache@[i].1@
                } by {
                    let oi = if i == self.cache@.len() - 1 { position as int } else if i < position { i } else { i + 1 };
                    assert(self.cache@[i] == old_cache[oi]);
                }
                assert(self.delivered().remove(index) =~= old(self).delivered().remove(index));
            }
            return Ok(());
        }
        proof {
            assert forall|j: int| 0 <= j < before.len() implies before[j] != index by {
                assert(self.cache@[j].0 != index);
            }
            assert(!before.contains(index));
        }
        let mut bytes: Vec<u8> = vec![0u8; self.hunk_size as usize];
        match self.source.read_hunk(index, bytes.as_mut_slice()) {
            Ok(()) => {},
            Err(e) => {
                return Err(e);
            },
        }
        let ghost old_cache = self.cache@;
        let ghost fresh = bytes@;
        if self.cache.len() == self.cache_capacity {
            self.cache.remove(0);
        }
        let ghost kept = self.cache@;
        self.cache.push((index, bytes));
        self.delivered = Ghost(self.delivered@.insert(index, fresh));
        proof {
            let full = old_cache.len() == self.cache_capacity;
            assert(kept == if full { old_cache.drop_first() } else { old_cache });
            assert(self.cache@ == kept.push((index, bytes)));
            if full {
                assert(self.cached() =~= before.drop_first().push(index));
            } else {
                assert(self.cached() =~= before.push(index));
            }
            assert forall|i: int| 0 <= i < kept.len() implies (#[trigger] kept[i]).0 != index by {
                let oi = if full { i + 1 } else { i };
                assert(kept[i] == old_cache[oi]);
                assert(before[oi] != index);
            }
            assert forall|i: int, j: int| 0 <= i < j < self.cache@.len() implies (#[trigger] self.cache@[i]).0 != (#[trigger] self.cache@[j]).0 by {
                if j < kept.len() {
                    let oi = if full { i + 1 } else { i };
                    let oj = if full { j + 1 } else { j };
                    assert(kept[i] == old_cache[oi]);
                    assert(kept[j] == old_cache[oj]);
                    assert(old_cache[oi].0 != old_cache[oj].0);
                } else {
                    assert(kept[i].0 != index);
                }
            }
            assert forall|i: int| 0 <= i < self.cache@.len() implies {
                &&& (#[trigger] self.cache@[i]).1@.len() == self.hunk_size
                &&& self.delivered@.contains_key(self.cache@[i].0)
                &&& self.delivered@[self.cache@[i].0] == self.cache@[i].1@
            } by {
                if i < kept.len() {
                    let oi = if full { i + 1 } else { i };
                    assert(kept[i] == old_cache[oi]);
                    assert(kept[i].0 != index);
                }
            }
            assert(self.delivered().remove(index) =~= old(self).delivered().remove(index));
        }
        Ok(())
    }

    /// Reads up to `buffer.len()` bytes at `offset`, stopping at the end of the stream;
    /// returns how many were read.
    pub fn read_at(&mut self, offset: u64, buffer: &mut [u8]) -> (r: Result<usize, IoError>)
        requires
            old(self).well_formed(),
        ensures
            final(self).well_formed(),
            final(self).hunk_len() == old(self).hunk_len(),
            final(self).logical_len() == old(self).logical_len(),
            final(self).capacity() == old(self).capacity(),
            final(buffer)@.len() == old(buffer)@.len(),
            read_len(old(self).logical_len(), offset, old(buffer)@.len()) == 0 ==> r == Ok::<usize, IoError>(0)
                && *final(self) == *old(self) && final(buffer)@ == old(buffer)@,
            r matches Ok(n) ==> {
                &&& n == read_len(old(self).logical_len(), offset, old(buffer)@.len())
                &&& forall|k: int| 0 <= k < n ==> #[trigger] final(buffer)@[k]
                    == delivered_byte(final(self).delivered(), final(self).hunk_len(), offset + k)
                &&& final(buffer)@.subrange(n as int, final(buffer)@.len() as int)
                    == old(buffer)@.subrange(n as int, old(buffer)@.len() as int)
                &&& n > 0 ==> final(self).cached() == touch_range(old(self).cached(),
                    hunk_of(offset as int, old(self).hunk_len()), hunk_of(offset + n - 1, old(self).hunk_len()), old(self).capacity())
                &&& (n > 0 && hunk_of(offset as int, old(self).hunk_len()) == hunk_of(offset + n - 1, old(self).hunk_len())
                    && old(self).cached().contains(hunk_of(offset as int, old(self).hunk_len()) as u32))
                    ==> final(self).source() == old(self).source()
            },
    {
        if offset >= self.logical_bytes || buffer.len() == 0 {
            return Ok(0);
        }
        let remaining = self.logical_bytes - offset;
        let requested: usize = if (buffer.len() as u64) < remaining { buffer.len() } else { remaining as usize };
        let ghost old_buf = buffer@;
        let ghost hs = self.hunk_size as int;
        let ghost first = offset as int / hs;
        let ghost start_cached = self.cached();
        let ghost start_source = self.source;
        let mut copied: usize = 0;
        while copied < requested
            invariant
                self.well_formed(),
                self.hunk_size as int == hs,
                self.hunk_size == old(self).hunk_size,
                hs > 0,
                self.logical_bytes == old(self).logical_bytes,
                self.cache_capacity == old(self).cache_capacity,
                first == offset as int / hs,
                start_cached == old(self).cached(),
                start_source == old(self).source,
                copied <= requested,
                requested as int == read_len(self.logical_bytes as nat, offset, old_buf.len()),
                requested > 0,
                offset + requested <= self.logical_bytes,
                buffer@.len() == old_buf.len(),
                old_buf == old(buffer)@,
                requested <= old_buf.len(),
                forall|k: int| 0 <= k < copied ==> #[trigger] buffer@[k] == delivered_byte(self.delivered@, hs as nat, offset + k),
                buffer@.subrange(copied as int, buffer@.len() as int) == old_buf.subrange(copied as int, old_buf.len() as int),
                copied == 0 ==> self.cached() == start_cached && self.source == start_source,
                copied > 0 ==> self.cached() == touch_range(start_cached, first, (offset + copied - 1) / hs, self.cache_capacity as nat),
                copied > 0 && copied < requested ==> (offset + copied) % hs == 0,
                copied > 0 && first == (offset + copied - 1) / hs && start_cached.contains(first as u32) ==> self.source == start_source,
            decreases requested - copied,
        {
            let logical_offset = offset + copied as u64;
            let quotient = logical_offset / self.hunk_size;
            if quotient > 0xffff_ffffu64 {
                return Err(IoError::new(std::io::ErrorKind::InvalidData, String::from_str("CHD hunk index overflow")));
            }
            let hunk_index = quotient as u32;
            let offset_in_hunk = (logical_offset % self.hunk_size) as usize;
            let ghost delivered_before = self.delivered@;
            let ghost cached_before = self.cached();
            let ghost source_before = self.source;
            proof {
                vstd::arithmetic::div_mod::lemma_fundamental_div_mod(logical_offset as int, hs);
                if copied > 0 {
                    let prev = (offset + copied - 1) / hs;
                    vstd::arithmetic::div_mod::lemma_fundamental_div_mod((offset + copied - 1) as int, hs);
                    assert((offset + copied) % hs == 0);
                    let lo = logical_offset as int;
                    assert(quotient == prev + 1) by (nonlinear_arith)
                        requires
                            hs > 0,
                            lo == offset + copied,
                            quotient == lo / hs,
                            lo % hs == 0,
                            lo == hs * (lo / hs) + lo % hs,
                            (offset + copied - 1) == hs * prev + (offset + copied - 1) % hs,
                            0 <= (offset + copied - 1) % hs < hs,
                    ;
                } else {
                    assert(quotient == first);
                }
            }
            let ensured = self.ensure_hunk(hunk_index);
            match ensured {
                Ok(()) => {},
                Err(e) => {
                    return Err(e);
                },
            }
            let last = self.cache.len() - 1;
            let available = self.hunk_size as usize - offset_in_hunk;
            let count: usize = if available < requested - copied { available } else { requested - copied };
            let ghost hunk_bytes = self.cache@[last as int].1@;
            proof {
                assert(self.cache@[last as int].1@.len() == self.hunk_size);
                assert(self.delivered@[hunk_index] == hunk_bytes);
            }
            let ghost buf_before = buffer@;
            let mut i: usize = 0;
            while i < count
                invariant
                    self.well_formed(),
                    last as int == self.cache@.len() - 1,
                    self.cache@[last as int].0 == hunk_index,
                    hunk_bytes == self.cache@[last as int].1@,
                    hunk_bytes.len() == hs,
                    offset_in_hunk + count <= hs,
                    copied + count <= requested,
                    copied + count <= buffer@.len(),
                    buffer@.len() == buf_before.len(),
                    i <= count,
                    forall|k: int| 0 <= k < i ==> #[trigger] buffer@[copied + k] == hunk_bytes[offset_in_hunk + k],
                    forall|k: int| 0 <= k < buffer@.len() && !(copied <= k < copied + i) ==> #[trigger] buffer@[k] == buf_before[k],
                decreases count - i,
            {
                buffer[copied + i] = self.cache[last].1[offset_in_hunk + i];
                i = i + 1;
            }
            proof {
                assert forall|k: int| 0 <= k < copied + count implies #[trigger] buffer@[k]
                    == delivered_byte(self.delivered@, hs as nat, offset + k) by {
                    if k < copied {
                        assert(buffer@[k] == buf_before[k]);
                        let p = offset + k;
                        assert(offset_in_hunk == 0);
                        vstd::arithmetic::div_mod::lemma_fundamental_div_mod(p, hs);
                        assert(p / hs < quotient) by (nonlinear_arith)
                            requires
                                hs > 0,
                                0 <= p,
                                p < hs * quotient,
                                p == hs * (p / hs) + p % hs,
                                0 <= p % hs,
                        ;
                        assert(0 <= p / hs) by (nonlinear_arith)
                            requires
                                hs > 0,
                                0 <= p,
                        ;
                        assert(((p / hs) as u32) != hunk_index);
                        assert(delivered_byte(self.delivered@, hs as nat, p) == delivered_byte(delivered_before, hs as nat, p)) by {
                            assert(self.delivered@.remove(hunk_index).contains_key((p / hs) as u32)
                                == delivered_before.remove(hunk_index).contains_key((p / hs) as u32));
                            assert(self.delivered@.remove(hunk_index)[(p / hs) as u32] == self.delivered@[(p / hs) as u32]);
                            assert(delivered_before.remove(hunk_index)[(p / hs) as u32] == delivered_before[(p / hs) as u32]);
                        }
                    } else {
                        let j = k - copied;
                        assert(buffer@[copied + j] == hunk_bytes[offset_in_hunk + j]);
                        lemma_position(offset + k, hs, quotient as int, offset_in_hunk + j);
                    }
                }
                assert(buffer@.subrange((copied + count) as int, buffer@.len() as int)
                    =~= old_buf.subrange((copied + count) as int, old_buf.len() as int)) by {
                    assert forall|k: int| (copied + count) as int <= k < buffer@.len() implies buffer@[k] == old_buf[k] by {
                        assert(buffer@[k] == buf_before[k]);
                        assert(buf_before.subrange(copied as int, buf_before.len() as int)[k - copied] == buf_before[k]);
                    }
                }
                let next = copied + count;
                vstd::arithmetic::div_mod::lemma_fundamental_div_mod((offset + next - 1) as int, hs);
                lemma_position(offset + next - 1, hs, quotient as int, offset_in_hunk + count - 1);
                let cap = self.cache_capacity as nat;
                vstd::arithmetic::div_mod::lemma_div_is_ordered(offset as int, logical_offset as int, hs);
                assert(quotient >= first);
                if copied == 0 {
                    assert(quotient as int == first);
                    assert(touch_range(start_cached, first, first - 1, cap) == start_cached);
                }
                assert(cached_before == touch_range(start_cached, first, quotient - 1, cap));
                assert(quotient as u32 == hunk_index);
                assert(touch_range(start_cached, first, quotient as int, cap)
                    == lru_touch(touch_range(start_cached, first, quotient - 1, cap), hunk_index, cap));
                assert(self.cached() == touch_range(start_cached, first, quotient as int, cap));
                if next < requested {
                    assert(count == available);
                    assert(hs * (quotient + 1) == hs * quotient + hs) by (nonlinear_arith);
                    lemma_position(offset + next, hs, quotient + 1, 0);
                }
                if copied > 0 {
                    vstd::arithmetic::div_mod::lemma_div_is_ordered(offset as int, offset + copied - 1, hs);
                    assert(quotient > first);
                }
            }
            copied = copied + count;
        }
        Ok(copied)
    }

    /// Length of the logical byte stream.
    pub fn len(&self) -> (r: u64)
        ensures
            r == self.logical_len(),
    {
        self.logical_bytes
    }

    /// The cached hunks, least recently used first.
    pub fn cached_hunks(&self) -> (r: Vec<u32>)
        ensures
            r@ == self.cached(),
    {
        let mut out: Vec<u32> = Vec::new();
        let mut i: usize = 0;
        while i < self.cache.len()
            invariant
                i <= self.cache@.len(),
                out@ == self.cached().take(i as int),
            decreases self.cache@.len() - i,
        {
            out.push(self.cache[i].0);
            i = i + 1;
            assert(out@ =~= self.cached().take(i as int));
        }
        assert(out@ =~= self.cached());
        out
    }
}

} // verus!
