//! The authoritative mining state machine: per-block break progress, the
//! anti-spam floor between hits, overlay stages, and the timeout that clears
//! abandoned attempts.
//!
//! Progress is measured in millionths of a break: a hit adds the time since
//! the previous hit, scaled by tool efficiency (thousandths) over the
//! block's hardness. The block breaks when progress reaches one million.

use vstd::prelude::*;
use crate::world::BlockPos;

verus! {

/// Hits closer together than this count as not holding and are skipped
/// (microseconds).
pub const MIN_HIT_INTERVAL_US: u64 = 50_000;

/// An attempt not hit for this long is abandoned (microseconds).
pub const BREAK_TIMEOUT_US: u64 = 500_000;

/// Progress denominator: this many millionths break the block.
pub const PROGRESS_SCALE: u64 = 1_000_000;

/// One block's break progress.
#[derive(Clone, Copy, PartialEq, Eq, Structural, Debug)]
pub struct BreakingBlock {
    /// Millionths of a full break accrued.
    pub progress_ppm: u64,
    /// When the block was last hit.
    pub prev_hit_us: u64,
}

/// What one hit on a block did.
#[derive(Clone, Copy, PartialEq, Eq, Structural, Debug)]
pub enum HitOutcome {
    /// First hit on this block: an attempt now exists and the caller builds
    /// the breaking overlay.
    Started,
    /// The hit came faster than the anti-spam floor and was skipped.
    TooSoon,
    /// Progress advanced; the overlay moves from one texture stage to the
    /// other (tenths of a break, so stages run zero through nine).
    Progressed { stage_before: u8, stage_after: u8 },
    /// The block broke: the caller replaces it with air, spawns the drop,
    /// and broadcasts particles and sound.
    Broken,
}

/// The millionths one hit adds: the gap since the previous hit, scaled by
/// the tool's efficiency (thousandths) over the block's hardness.
pub open spec fn spec_progress_delta(gap_us: u64, hardness_us: u64, efficiency_milli: u32) -> int {
    (gap_us * efficiency_milli * 1000) / (hardness_us as int)
}

/// The overlay texture stage of a progress value: whole tenths of a break.
pub open spec fn spec_stage(progress_ppm: u64) -> int {
    if progress_ppm >= PROGRESS_SCALE {
        10
    } else {
        progress_ppm as int / 100_000
    }
}

/// The attempt recorded for a position, if any: the first entry that carries
/// it.
pub open spec fn spec_find_entry(entries: Seq<(BlockPos, BreakingBlock)>, pos: BlockPos) -> Option<
    BreakingBlock,
>
    decreases entries.len(),
{
    if entries.len() == 0 {
        None
    } else if entries[0].0 == pos {
        Some(entries[0].1)
    } else {
        spec_find_entry(entries.skip(1), pos)
    }
}

/// The entries still alive at `now`: hit recently and not yet broken.
pub open spec fn spec_live(entry: BreakingBlock, now_us: u64) -> bool {
    &&& now_us - entry.prev_hit_us <= BREAK_TIMEOUT_US
    &&& entry.progress_ppm < PROGRESS_SCALE
}

/// All break attempts in flight, one per block position.
pub struct BreakingRegistry {
    pub entries: Vec<(BlockPos, BreakingBlock)>,
}

impl BreakingRegistry {
    pub open spec fn wf(self) -> bool {
        forall|i: int, j: int|
            0 <= i < j < self.entries@.len() ==> (#[trigger] self.entries@[i]).0 != (
            #[trigger] self.entries@[j]).0
    }

    /// No attempts in flight.
    pub fn new() -> (r: BreakingRegistry)
        ensures
            r.wf(),
            r.entries@.len() == 0,
    {
        BreakingRegistry { entries: Vec::new() }
    }

    /// Index of the attempt on a position.
    fn find_index(&self, pos: &BlockPos) -> (r: Option<usize>)
        ensures
            match r {
                Some(i) => i < self.entries@.len() && self.entries@[i as int].0 == *pos,
                None => forall|i: int|
                    0 <= i < self.entries@.len() ==> (#[trigger] self.entries@[i]).0 != *pos,
            },
    {
        let mut i: usize = 0;
        while i < self.entries.len()
            invariant
                i <= self.entries@.len(),
                forall|j: int| 0 <= j < i ==> (#[trigger] self.entries@[j]).0 != *pos,
            decreases self.entries@.len() - i,
        {
            if self.entries[i].0 == *pos {
                return Some(i);
            }
            i = i + 1;
        }
        None
    }

    /// One hit on a breakable block.
    ///
    /// Zero hardness breaks at once. A first hit opens an attempt at zero
    /// progress. A hit inside the anti-spam floor changes nothing. Any other
    /// hit adds the elapsed time scaled by efficiency over hardness and
    /// breaks the block when a full break is reached.
    pub fn hit(
        &mut self,
        pos: BlockPos,
        now_us: u64,
        hardness_us: u64,
        efficiency_milli: u32,
    ) -> (outcome: HitOutcome)
        requires
            old(self).wf(),
            hardness_us <= 0x1_0000_0000,
            efficiency_milli <= 1_000_000,
            now_us <= 0x1_0000_0000_0000,
            forall|i: int|
                0 <= i < old(self).entries@.len() ==> (#[trigger] old(
                    self,
                ).entries@[i]).1.prev_hit_us <= now_us,
        ensures
            final(self).wf(),
            forall|p2: BlockPos|
                p2 != pos ==> #[trigger] spec_find_entry(final(self).entries@, p2)
                    == spec_find_entry(old(self).entries@, p2),
            forall|i: int|
                0 <= i < final(self).entries@.len()
                    ==> (#[trigger] final(self).entries@[i]).1.prev_hit_us <= now_us,
            ({
                let before = spec_find_entry(old(self).entries@, pos);
                let after = spec_find_entry(final(self).entries@, pos);
                match outcome {
                    HitOutcome::Broken => final(self).entries@ == old(self).entries@ && (hardness_us
                        == 0 || (before is Some && now_us
                        - before.unwrap().prev_hit_us >= MIN_HIT_INTERVAL_US && before
                        .unwrap().progress_ppm + spec_progress_delta(
                        (now_us - before.unwrap().prev_hit_us) as u64,
                        hardness_us,
                        efficiency_milli,
                    ) >= PROGRESS_SCALE)),
                    HitOutcome::Started => hardness_us > 0 && before is None && after == Some(
                        BreakingBlock { progress_ppm: 0u64, prev_hit_us: now_us },
                    ),
                    HitOutcome::TooSoon => {
                        &&& hardness_us > 0
                        &&& before is Some
                        &&& now_us - before.unwrap().prev_hit_us < MIN_HIT_INTERVAL_US
                        &&& final(self).entries@ == old(self).entries@
                    },
                    HitOutcome::Progressed { stage_before, stage_after } => {
                        &&& hardness_us > 0
                        &&& before is Some
                        &&& now_us - before.unwrap().prev_hit_us >= MIN_HIT_INTERVAL_US
                        &&& after is Some
                        &&& after.unwrap().prev_hit_us == now_us
                        &&& after.unwrap().progress_ppm == before.unwrap().progress_ppm
                            + spec_progress_delta(
                            (now_us - before.unwrap().prev_hit_us) as u64,
                            hardness_us,
                            efficiency_milli,
                        )
                        &&& after.unwrap().progress_ppm < PROGRESS_SCALE
                        &&& stage_before == spec_stage(before.unwrap().progress_ppm)
                        &&& stage_after == spec_stage(after.unwrap().progress_ppm)
                    },
                }
            }),
    {
        if hardness_us == 0 {
            return HitOutcome::Broken;
        }
        match self.find_index(&pos) {
            None => {
                let ghost entries0 = self.entries@;
                self.entries.push((pos, BreakingBlock { progress_ppm: 0, prev_hit_us: now_us }));
                proof {
                    lemma_find_entry_first(self.entries@, pos, entries0.len() as int);
                    lemma_find_entry_none(entries0, pos);
                    assert forall|p2: BlockPos|
                        p2 != pos implies #[trigger] spec_find_entry(self.entries@, p2)
                        == spec_find_entry(entries0, p2) by {
                        lemma_find_entry_push_other(
                            entries0,
                            (pos, BreakingBlock { progress_ppm: 0, prev_hit_us: now_us }),
                            p2,
                        );
                    }
                }
                HitOutcome::Started
            },
            Some(i) => {
                let ghost entries0 = self.entries@;
                proof {
                    lemma_find_entry_unique(entries0, pos, i as int);
                }
                let entry = self.entries[i].1;
                let gap = now_us - entry.prev_hit_us;
                if gap < MIN_HIT_INTERVAL_US {
                    return HitOutcome::TooSoon;
                }
                // gap <= 2^48, efficiency <= 2^20, so the product fits u128
                // comfortably; hardness is positive here.
                proof {
                    assert((gap as int) * (efficiency_milli as int) * 1000 < 0x1_0000_0000_0000_0000_0000_0000)
                        by (nonlinear_arith)
                        requires
                            0 <= gap <= 0x1_0000_0000_0000,
                            0 <= efficiency_milli <= 1_000_000,
                    ;
                }
                let delta_wide: u128 = (gap as u128) * (efficiency_milli as u128) * 1000u128 / (
                hardness_us as u128);
                let new_progress: u64 = if delta_wide >= PROGRESS_SCALE as u128 {
                    PROGRESS_SCALE
                } else if entry.progress_ppm >= PROGRESS_SCALE || delta_wide as u64
                    >= PROGRESS_SCALE - entry.progress_ppm {
                    PROGRESS_SCALE
                } else {
                    entry.progress_ppm + (delta_wide as u64)
                };
                if new_progress >= PROGRESS_SCALE {
                    return HitOutcome::Broken;
                }
                let stage_before = (entry.progress_ppm / 100_000) as u8;
                let stage_after = (new_progress / 100_000) as u8;
                self.entries[i] = (
                    pos,
                    BreakingBlock { progress_ppm: new_progress, prev_hit_us: now_us },
                );
                proof {
                    lemma_find_entry_unique(self.entries@, pos, i as int);
                    assert forall|p2: BlockPos|
                        p2 != pos implies #[trigger] spec_find_entry(self.entries@, p2)
                        == spec_find_entry(entries0, p2) by {
                        lemma_find_entry_update_other(
                            entries0,
                            i as int,
                            BreakingBlock { progress_ppm: new_progress, prev_hit_us: now_us },
                            p2,
                        );
                        assert(self.entries@ =~= entries0.update(
                            i as int,
                            (
                                entries0[i as int].0,
                                BreakingBlock { progress_ppm: new_progress, prev_hit_us: now_us },
                            ),
                        ));
                    }
                }
                HitOutcome::Progressed { stage_before, stage_after }
            },
        }
    }

    /// Drop the attempt on a position, if any (the block broke).
    pub fn remove(&mut self, pos: &BlockPos)
        requires
            old(self).wf(),
        ensures
            final(self).wf(),
            spec_find_entry(final(self).entries@, *pos) is None,
    {
        match self.find_index(pos) {
            None => {
                proof {
                    lemma_find_entry_none(self.entries@, *pos);
                }
            },
            Some(i) => {
                let ghost entries0 = self.entries@;
                self.entries.remove(i);
                proof {
                    assert forall|a: int, b: int|
                        0 <= a < b < self.entries@.len() implies (#[trigger] self.entries@[a]).0
                        != (#[trigger] self.entries@[b]).0 by {
                        let a0 = if a < i {
                            a
                        } else {
                            a + 1
                        };
                        let b0 = if b < i {
                            b
                        } else {
                            b + 1
                        };
                        assert(self.entries@[a] == entries0[a0] && self.entries@[b]
                            == entries0[b0]);
                    }
                    assert forall|j: int|
                        0 <= j < self.entries@.len() implies (#[trigger] self.entries@[j]).0
                        != *pos by {
                        let j0 = if j < i {
                            j
                        } else {
                            j + 1
                        };
                        assert(self.entries@[j] == entries0[j0]);
                    }
                    lemma_find_entry_none(self.entries@, *pos);
                }
            },
        }
    }

    /// Forget attempts not hit for half a second and attempts that already
    /// broke their block; everything else stays, in order.
    pub fn purge(&mut self, now_us: u64)
        requires
            old(self).wf(),
            forall|i: int|
                0 <= i < old(self).entries@.len() ==> (#[trigger] old(
                    self,
                ).entries@[i]).1.prev_hit_us <= now_us,
        ensures
            final(self).wf(),
            final(self).entries@ == old(self).entries@.filter(
                |e: (BlockPos, BreakingBlock)| spec_live(e.1, now_us),
            ),
    {
        let ghost pred = |e: (BlockPos, BreakingBlock)| spec_live(e.1, now_us);
        let mut kept: Vec<(BlockPos, BreakingBlock)> = Vec::new();
        let mut i: usize = 0;
        proof {
            reveal(Seq::filter);
            assert(self.entries@.subrange(0, 0).filter(pred) =~= kept@);
        }
        while i < self.entries.len()
            invariant
                self.wf(),
                forall|j: int|
                    0 <= j < self.entries@.len() ==> (#[trigger] self.entries@[j]).1.prev_hit_us
                        <= now_us,
                pred == (|e: (BlockPos, BreakingBlock)| spec_live(e.1, now_us)),
                i <= self.entries@.len(),
                kept@ == self.entries@.subrange(0, i as int).filter(pred),
                forall|a: int|
                    0 <= a < kept@.len() ==> exists|b: int|
                        0 <= b < i && #[trigger] kept@[a] == self.entries@[b] && kept@[a].0
                            == self.entries@[b].0,
                forall|a1: int, a2: int|
                    0 <= a1 < a2 < kept@.len() ==> (#[trigger] kept@[a1]).0 != (
                    #[trigger] kept@[a2]).0,
            decreases self.entries@.len() - i,
        {
            let entry = self.entries[i];
            let ghost pre = kept@;
            let live = now_us - entry.1.prev_hit_us <= BREAK_TIMEOUT_US && entry.1.progress_ppm
                < PROGRESS_SCALE;
            if live {
                kept.push(entry);
                proof {
                    assert forall|a1: int, a2: int|
                        0 <= a1 < a2 < kept@.len() implies (#[trigger] kept@[a1]).0 != (
                        #[trigger] kept@[a2]).0 by {
                        if a2 == kept@.len() - 1 {
                            let b = choose|b: int|
                                0 <= b < i && #[trigger] pre[a1] == self.entries@[b] && pre[a1].0
                                    == self.entries@[b].0;
                            assert(self.entries@[b].0 != self.entries@[i as int].0);
                        }
                    }
                }
            }
            proof {
                reveal(Seq::filter);
                let sub = self.entries@.subrange(0, i as int);
                let subn = self.entries@.subrange(0, i as int + 1);
                assert(subn.drop_last() =~= sub);
                assert(subn.last() == entry);
                if live {
                    assert(subn.filter(pred) =~= sub.filter(pred).push(entry));
                }
                assert(subn.filter(pred) =~= kept@);
            }
            i = i + 1;
        }
        proof {
            assert(self.entries@.subrange(0, self.entries@.len() as int) =~= self.entries@);
        }
        self.entries = kept;
    }
}

/// Appending an entry for another position changes no other lookup.
proof fn lemma_find_entry_push_other(
    entries: Seq<(BlockPos, BreakingBlock)>,
    entry: (BlockPos, BreakingBlock),
    pos2: BlockPos,
)
    requires
        entry.0 != pos2,
    ensures
        spec_find_entry(entries.push(entry), pos2) == spec_find_entry(entries, pos2),
    decreases entries.len(),
{
    if entries.len() == 0 {
        assert(entries.push(entry).skip(1) =~= entries);
    } else {
        assert(entries.push(entry)[0] == entries[0]);
        assert(entries.push(entry).skip(1) =~= entries.skip(1).push(entry));
        lemma_find_entry_push_other(entries.skip(1), entry, pos2);
    }
}

/// Updating one position's entry changes no other lookup.
proof fn lemma_find_entry_update_other(
    entries: Seq<(BlockPos, BreakingBlock)>,
    i: int,
    value: BreakingBlock,
    pos2: BlockPos,
)
    requires
        0 <= i < entries.len(),
        entries[i].0 != pos2,
    ensures
        spec_find_entry(entries.update(i, (entries[i].0, value)), pos2) == spec_find_entry(
            entries,
            pos2,
        ),
    decreases entries.len(),
{
    let updated = entries.update(i, (entries[i].0, value));
    if i == 0 {
        assert(updated[0].0 == entries[0].0);
        assert(updated.skip(1) =~= entries.skip(1));
    } else {
        assert(updated[0] == entries[0]);
        assert(updated.skip(1) =~= entries.skip(1).update(i - 1, (entries[i].0, value)));
        assert(entries.skip(1)[i - 1] == entries[i]);
        lemma_find_entry_update_other(entries.skip(1), i - 1, value, pos2);
    }
}

proof fn lemma_find_entry_first(entries: Seq<(BlockPos, BreakingBlock)>, pos: BlockPos, i: int)
    requires
        0 <= i < entries.len(),
        entries[i].0 == pos,
        forall|j: int| 0 <= j < i ==> (#[trigger] entries[j]).0 != pos,
    ensures
        spec_find_entry(entries, pos) == Some(entries[i].1),
    decreases i,
{
    if i > 0 {
        assert(forall|j: int| 0 <= j < i - 1 ==> (#[trigger] entries.skip(1)[j]).0 != pos);
        assert(entries.skip(1)[i - 1] == entries[i]);
        lemma_find_entry_first(entries.skip(1), pos, i - 1);
    }
}

proof fn lemma_find_entry_none(entries: Seq<(BlockPos, BreakingBlock)>, pos: BlockPos)
    requires
        forall|j: int| 0 <= j < entries.len() ==> (#[trigger] entries[j]).0 != pos,
    ensures
        spec_find_entry(entries, pos) is None,
    decreases entries.len(),
{
    if entries.len() > 0 {
        assert(forall|j: int|
            0 <= j < entries.skip(1).len() ==> (#[trigger] entries.skip(1)[j]).0 != pos);
        lemma_find_entry_none(entries.skip(1), pos);
    }
}

/// In a registry with unique positions, the entry at a matching index is the
/// found entry.
proof fn lemma_find_entry_unique(entries: Seq<(BlockPos, BreakingBlock)>, pos: BlockPos, i: int)
    requires
        0 <= i < entries.len(),
        entries[i].0 == pos,
        forall|a: int, b: int|
            0 <= a < b < entries.len() ==> (#[trigger] entries[a]).0 != (#[trigger] entries[b]).0,
    ensures
        spec_find_entry(entries, pos) == Some(entries[i].1),
{
    assert forall|j: int| 0 <= j < i implies (#[trigger] entries[j]).0 != pos by {
        assert(entries[j].0 != entries[i].0);
    }
    lemma_find_entry_first(entries, pos, i);
}

} // verus!
