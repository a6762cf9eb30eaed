//! CPU mirror of the packed hot-record storage buffer.
//!
//! Every write updates the mirror first and returns the range of words the
//! caller uploads to the GPU buffer; a write that does not fit the atlas
//! capacity is skipped and uploads nothing.

use crate::packed_atlas::{
    storage_words_spec, PackedAtlasCpuBuffers, PackedHotRecord, HOT_RECORD_U32_WORDS,
};
use vstd::prelude::*;

verus! {

/// Word index of the color inside a hot record.
pub const COLOR_WORD: usize = 4;

/// A half-open range of mirror words to upload.
#[derive(Debug, Clone, Copy, PartialEq, Eq, Structural)]
pub struct WordRange {
    pub start: usize,
    pub end: usize,
}

/// Model of the mirror: its capacity in records and its words.
pub struct HotMirrorView {
    pub capacity: nat,
    pub words: Seq<u32>,
}

/// The mirror holds five words per record of a capacity of at least one.
pub open spec fn hot_mirror_wf(v: HotMirrorView) -> bool {
    v.capacity >= 1 && v.words.len() == v.capacity * HOT_RECORD_U32_WORDS
}

/// Words of the records `[slot, end)`.
pub open spec fn record_words(slot: nat, end: nat) -> WordRange {
    WordRange { start: (slot * 5) as usize, end: (end * 5) as usize }
}

/// Words after `colors` replace the color words of the records from `slot`.
pub open spec fn colors_written(words: Seq<u32>, slot: nat, colors: Seq<u32>) -> Seq<u32> {
    Seq::new(
        words.len(),
        |i: int|
            if slot * 5 <= i < (slot + colors.len()) * 5 && i % 5 == COLOR_WORD {
                colors[i / 5 - slot]
            } else {
                words[i]
            },
    )
}

/// Words after `records` (five words per record) replace the records from
/// `slot`.
pub open spec fn records_written(words: Seq<u32>, slot: nat, records: Seq<u32>) -> Seq<u32> {
    Seq::new(
        words.len(),
        |i: int|
            if slot * 5 <= i < slot * 5 + records.len() {
                records[i - slot * 5]
            } else {
                words[i]
            },
    )
}

/// Words after the records `[slot, slot + count)` are zeroed.
pub open spec fn records_cleared(words: Seq<u32>, slot: nat, count: nat) -> Seq<u32> {
    Seq::new(
        words.len(),
        |i: int|
            if slot * 5 <= i < (slot + count) * 5 {
                0u32
            } else {
                words[i]
            },
    )
}

proof fn lemma_record_word_bounds(slot: int, end: int, capacity: int)
    requires
        0 <= slot <= end <= capacity,
    ensures
        0 <= slot * 5 <= end * 5 <= capacity * 5,
{
    assert(slot * 5 <= end * 5 <= capacity * 5) by (nonlinear_arith)
        requires
            0 <= slot <= end <= capacity,
    ;
}

/// CPU mirror of the hot-record buffer of a packed atlas.
pub struct HotRecordMirror {
    capacity: usize,
    hot_words: Vec<u32>,
}

impl View for HotRecordMirror {
    type V = HotMirrorView;

    closed spec fn view(&self) -> HotMirrorView {
        HotMirrorView { capacity: self.capacity as nat, words: self.hot_words@ }
    }
}

impl HotRecordMirror {
    pub open spec fn wf(&self) -> bool {
        hot_mirror_wf(self@)
    }

    /// The mirror of an atlas holding `records`; an empty atlas keeps one
    /// zero record, since a GPU buffer cannot be empty.
    pub fn from_records(records: &Vec<PackedHotRecord>) -> (r: Self)
        requires
            records@.len() * 5 <= usize::MAX,
        ensures
            r.wf(),
            records@.len() > 0 ==> r@.capacity == records@.len() && r@.words == storage_words_spec(
                records@,
            ),
            records@.len() == 0 ==> r@.capacity == 1 && r@.words == seq![0u32, 0u32, 0u32, 0u32, 0u32],
    {
        let mut hot_words = PackedAtlasCpuBuffers::hot_storage_words(records);
        if records.len() == 0 {
            hot_words = vec![0u32, 0u32, 0u32, 0u32, 0u32];
            assert(hot_words@ =~= seq![0u32, 0u32, 0u32, 0u32, 0u32]);
            return HotRecordMirror { capacity: 1, hot_words };
        }
        HotRecordMirror { capacity: records.len(), hot_words }
    }

    pub fn capacity(&self) -> (r: usize)
        ensures
            r == self@.capacity,
    {
        self.capacity
    }

    /// The mirrored words.
    pub fn words(&self) -> (r: &Vec<u32>)
        ensures
            r@ == self@.words,
    {
        &self.hot_words
    }

    /// Replaces the color words of the records from `global_slot` with
    /// `colors`; skipped when `colors` is empty or does not fit.
    pub fn write_hot_colors_at(&mut self, global_slot: usize, colors: &Vec<u32>) -> (r: Option<
        WordRange,
    >)
        requires
            old(self).wf(),
        ensures
            final(self).wf(),
            final(self)@.capacity == old(self)@.capacity,
            colors@.len() == 0 || global_slot + colors@.len() > old(self)@.capacity ==> r is None
                && final(self)@ == old(self)@,
            colors@.len() > 0 && global_slot + colors@.len() <= old(self)@.capacity ==> r == Some(
                record_words(global_slot as nat, (global_slot + colors@.len()) as nat),
            ) && final(self)@.words == colors_written(
                old(self)@.words,
                global_slot as nat,
                colors@,
            ),
    {
        let ghost old_words = self.hot_words@;
        let total = self.hot_words.len();
        let n = colors.len();
        if n == 0 || global_slot > self.capacity || n > self.capacity - global_slot {
            return None;
        }
        let end = global_slot + n;
        proof {
            lemma_record_word_bounds(global_slot as int, end as int, self.capacity as int);
        }
        let mut offset: usize = 0;
        while offset < n
            invariant
                self.wf(),
                self.capacity as int * 5 == self.hot_words@.len(),
                self.hot_words@.len() == total,
                end == global_slot + n,
                n == colors@.len(),
                end <= self.capacity,
                offset <= n,
                self.hot_words@.len() == old_words.len(),
                forall|i: int|
                    0 <= i < old_words.len() ==> #[trigger] self.hot_words@[i] == if global_slot
                        * 5 <= i < (global_slot + offset) * 5 && i % 5 == COLOR_WORD {
                        colors@[i / 5 - global_slot]
                    } else {
                        old_words[i]
                    },
            decreases n - offset,
        {
            let index = global_slot + offset;
            proof {
                lemma_record_word_bounds(index as int, index as int + 1, self.capacity as int);
            }
            let word = index * HOT_RECORD_U32_WORDS + COLOR_WORD;
            self.hot_words.set(word, colors[offset]);
            proof {
                assert forall|i: int| 0 <= i < old_words.len() implies #[trigger] self.hot_words@[i]
                    == if global_slot * 5 <= i < (global_slot + offset + 1) * 5 && i % 5
                    == COLOR_WORD {
                    colors@[i / 5 - global_slot]
                } else {
                    old_words[i]
                } by {
                    if i == word {
                        assert(i / 5 == index && i % 5 == COLOR_WORD) by (nonlinear_arith)
                            requires
                                i == index * 5 + 4,
                                index >= 0,
                        ;
                    } else {
                        assert((global_slot * 5 <= i < (global_slot + offset + 1) * 5 && i % 5
                            == COLOR_WORD) == (global_slot * 5 <= i < (global_slot + offset) * 5
                            && i % 5 == COLOR_WORD)) by (nonlinear_arith)
                            requires
                                i != index * 5 + 4,
                                index == global_slot + offset,
                                0 <= i,
                        ;
                    }
                }
            }
            offset += 1;
        }
        proof {
            assert(self.hot_words@ =~= colors_written(old_words, global_slot as nat, colors@));
        }
        Some(WordRange { start: global_slot * HOT_RECORD_U32_WORDS, end: end * HOT_RECORD_U32_WORDS })
    }

    /// Replaces the records from `global_slot` with `words`, five words per
    /// record; skipped when `words` is empty or does not fit.
    pub fn write_hot_records_at(&mut self, global_slot: usize, words: &Vec<u32>) -> (r: Option<
        WordRange,
    >)
        requires
            old(self).wf(),
            words@.len() % 5 == 0,
        ensures
            final(self).wf(),
            final(self)@.capacity == old(self)@.capacity,
            words@.len() == 0 || global_slot + words@.len() / 5 > old(self)@.capacity ==> r is None
                && final(self)@ == old(self)@,
            words@.len() > 0 && global_slot + words@.len() / 5 <= old(self)@.capacity ==> r == Some(
                record_words(global_slot as nat, (global_slot + words@.len() / 5) as nat),
            ) && final(self)@.words == records_written(
                old(self)@.words,
                global_slot as nat,
                words@,
            ),
    {
        let ghost old_words = self.hot_words@;
        let total = self.hot_words.len();
        let n = words.len();
        if n == 0 {
            return None;
        }
        let splat_count = n / HOT_RECORD_U32_WORDS;
        if global_slot > self.capacity || splat_count > self.capacity - global_slot {
            return None;
        }
        let end = global_slot + splat_count;
        proof {
            lemma_record_word_bounds(global_slot as int, end as int, self.capacity as int);
            assert(end * 5 == global_slot * 5 + n) by (nonlinear_arith)
                requires
                    end == global_slot + splat_count,
                    splat_count == n / 5,
                    n % 5 == 0,
            ;
        }
        let start = global_slot * HOT_RECORD_U32_WORDS;
        let mut k: usize = 0;
        while k < n
            invariant
                self.wf(),
                self.capacity as int * 5 == self.hot_words@.len(),
                self.hot_words@.len() == total,
                start == global_slot * 5,
                start + n <= self.hot_words@.len(),
                n == words@.len(),
                k <= n,
                self.hot_words@.len() == old_words.len(),
                forall|i: int|
                    0 <= i < old_words.len() ==> #[trigger] self.hot_words@[i] == if start <= i
                        < start + k {
                        words@[i - start]
                    } else {
                        old_words[i]
                    },
            decreases n - k,
        {
            self.hot_words.set(start + k, words[k]);
            k += 1;
        }
        proof {
            assert(self.hot_words@ =~= records_written(old_words, global_slot as nat, words@));
        }
        Some(WordRange { start, end: end * HOT_RECORD_U32_WORDS })
    }

    /// Zeroes the records `[global_slot_start, global_slot_start +
    /// splat_count)`; skipped when the range is empty or does not fit.
    pub fn clear_hot_records_range(&mut self, global_slot_start: usize, splat_count: usize) -> (r:
        Option<WordRange>)
        requires
            old(self).wf(),
        ensures
            final(self).wf(),
            final(self)@.capacity == old(self)@.capacity,
            splat_count == 0 || global_slot_start + splat_count > old(self)@.capacity ==> r is None
                && final(self)@ == old(self)@,
            splat_count > 0 && global_slot_start + splat_count <= old(self)@.capacity ==> r == Some(
                record_words(global_slot_start as nat, (global_slot_start + splat_count) as nat),
            ) && final(self)@.words == records_cleared(
                old(self)@.words,
                global_slot_start as nat,
                splat_count as nat,
            ),
    {
        let ghost old_words = self.hot_words@;
        let total = self.hot_words.len();
        if splat_count == 0 || global_slot_start > self.capacity || splat_count > self.capacity
            - global_slot_start {
            return None;
        }
        let end = global_slot_start + splat_count;
        proof {
            lemma_record_word_bounds(global_slot_start as int, end as int, self.capacity as int);
        }
        let start = global_slot_start * HOT_RECORD_U32_WORDS;
        let stop = end * HOT_RECORD_U32_WORDS;
        let mut k: usize = start;
        while k < stop
            invariant
                self.wf(),
                self.capacity as int * 5 == self.hot_words@.len(),
                self.hot_words@.len() == total,
                start == global_slot_start * 5,
                stop == end * 5,
                end == global_slot_start + splat_count,
                start <= k <= stop,
                stop <= self.hot_words@.len(),
                self.hot_words@.len() == old_words.len(),
                forall|i: int|
                    0 <= i < old_words.len() ==> #[trigger] self.hot_words@[i] == if start <= i < k {
                        0u32
                    } else {
                        old_words[i]
                    },
            decreases stop - k,
        {
            self.hot_words.set(k, 0);
            k += 1;
        }
        proof {
            assert(self.hot_words@ =~= records_cleared(
                old_words,
                global_slot_start as nat,
                splat_count as nat,
            ));
        }
        Some(WordRange { start, end: stop })
    }
}

/// A color write changes only color words, and only those of the written
/// records.
pub proof fn lemma_color_write_touches_only_colors(words: Seq<u32>, slot: nat, colors: Seq<u32>, i: int)
    requires
        0 <= i < words.len(),
        i % 5 != COLOR_WORD || i < slot * 5 || i >= (slot + colors.len()) * 5,
    ensures
        colors_written(words, slot, colors)[i] == words[i],
{
}

/// Clearing a range and then writing records over exactly that range leaves
/// the records' words, whatever the range held before.
pub proof fn lemma_records_written_over_clear(words: Seq<u32>, slot: nat, records: Seq<u32>)
    requires
        records.len() % 5 == 0,
        slot * 5 + records.len() <= words.len(),
    ensures
        records_written(records_cleared(words, slot, records.len() / 5), slot, records)
            == records_written(words, slot, records),
{
    assert((slot + records.len() / 5) * 5 == slot * 5 + records.len()) by (nonlinear_arith)
        requires
            records.len() % 5 == 0,
    ;
    assert(records_written(records_cleared(words, slot, records.len() / 5), slot, records)
        =~= records_written(words, slot, records));
}

} // verus!
