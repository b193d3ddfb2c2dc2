//! One automatic cleanup run as a state machine. The run walks the library's
//! clips oldest first in three phases: clips past the age limit, then clips
//! while the library exceeds its size limit, then clips while the disk has
//! too little free space. It offers one clip at a time for deletion and is
//! told whether the deletion succeeded; favourites are never offered.
//!
//! Reading the folders, deleting files and measuring free disk space stay
//! with the caller, which hands the run each clip's age, size and favourite
//! flag, each deletion's outcome, and whether the disk has enough space.
use vstd::prelude::*;
use crate::library::{
    cleanup_order, should_delete, spec_is_cleanup_order, spec_should_delete, CleanupPhase,
    CleanupTally,
};

verus! {

/// Whether the age limit deletes clip `i`: not a favourite, and older than
/// the limit.
pub open spec fn spec_age_due(ages: Seq<u64>, fav: Seq<bool>, max_age_days: u32, i: usize) -> bool {
    !fav[i as int] && spec_should_delete(CleanupPhase::Age, ages[i as int], max_age_days, 0, 0)
}

/// Whether the age limit keeps clip `i` for the later phases: not a
/// favourite, and not older than the limit.
pub open spec fn spec_age_keeps(ages: Seq<u64>, fav: Seq<bool>, max_age_days: u32, i: usize) -> bool {
    !fav[i as int] && !spec_should_delete(CleanupPhase::Age, ages[i as int], max_age_days, 0, 0)
}

/// Whether the size limit `limit` (`None`: no size limit) deletes while the
/// library holds `total_bytes`.
pub open spec fn spec_storage_due(total_bytes: u64, limit: Option<u64>) -> bool {
    match limit {
        Some(m) => spec_should_delete(CleanupPhase::Storage, 0, 0, total_bytes, m),
        None => false,
    }
}

/// Of the clips `items` (in cleanup order), those the age limit deletes, in
/// that order.
pub open spec fn spec_age_tried(items: Seq<usize>, ages: Seq<u64>, fav: Seq<bool>, max_age_days: u32) -> Seq<usize>
    decreases items.len(),
{
    if items.len() == 0 {
        Seq::empty()
    } else {
        let r = spec_age_tried(items.drop_last(), ages, fav, max_age_days);
        if spec_age_due(ages, fav, max_age_days, items.last()) {
            r.push(items.last())
        } else {
            r
        }
    }
}

/// Of the clips `items` (in cleanup order), those the age limit keeps, in
/// that order.
pub open spec fn spec_age_kept(items: Seq<usize>, ages: Seq<u64>, fav: Seq<bool>, max_age_days: u32) -> Seq<usize>
    decreases items.len(),
{
    if items.len() == 0 {
        Seq::empty()
    } else {
        let r = spec_age_kept(items.drop_last(), ages, fav, max_age_days);
        if spec_age_keeps(ages, fav, max_age_days, items.last()) {
            r.push(items.last())
        } else {
            r
        }
    }
}

/// Of the clips `items`, in order, those whose decision in `dec` (one per
/// clip) is `want`.
pub open spec fn spec_pick(items: Seq<usize>, dec: Seq<bool>, want: bool) -> Seq<usize>
    decreases items.len(),
{
    if items.len() == 0 || dec.len() == 0 {
        Seq::empty()
    } else {
        let r = spec_pick(items.drop_last(), dec.drop_last(), want);
        if dec.last() == want {
            r.push(items.last())
        } else {
            r
        }
    }
}

/// Total size of the clips `idx`.
pub open spec fn spec_sizes_of(sizes: Seq<u64>, idx: Seq<usize>) -> nat
    decreases idx.len(),
{
    if idx.len() == 0 {
        0
    } else {
        spec_sizes_of(sizes, idx.drop_last()) + (sizes[idx.last() as int] as nat)
    }
}

proof fn lemma_age_tried_valid(items: Seq<usize>, ages: Seq<u64>, fav: Seq<bool>, d: u32, k: int)
    requires
        0 <= k < spec_age_tried(items, ages, fav, d).len(),
    ensures
        items.contains(spec_age_tried(items, ages, fav, d)[k]),
        spec_age_due(ages, fav, d, spec_age_tried(items, ages, fav, d)[k]),
    decreases items.len(),
{
    let r = spec_age_tried(items.drop_last(), ages, fav, d);
    if k < r.len() {
        lemma_age_tried_valid(items.drop_last(), ages, fav, d, k);
        let x = r[k];
        let j = choose|j: int| 0 <= j < items.drop_last().len() && items.drop_last()[j] == x;
        assert(items[j] == x);
    } else {
        assert(items[items.len() - 1] == items.last());
    }
}

proof fn lemma_age_kept_valid(items: Seq<usize>, ages: Seq<u64>, fav: Seq<bool>, d: u32, k: int)
    requires
        0 <= k < spec_age_kept(items, ages, fav, d).len(),
    ensures
        items.contains(spec_age_kept(items, ages, fav, d)[k]),
        spec_age_keeps(ages, fav, d, spec_age_kept(items, ages, fav, d)[k]),
    decreases items.len(),
{
    let r = spec_age_kept(items.drop_last(), ages, fav, d);
    if k < r.len() {
        lemma_age_kept_valid(items.drop_last(), ages, fav, d, k);
        let x = r[k];
        let j = choose|j: int| 0 <= j < items.drop_last().len() && items.drop_last()[j] == x;
        assert(items[j] == x);
    } else {
        assert(items[items.len() - 1] == items.last());
    }
}

proof fn lemma_pick_valid(items: Seq<usize>, dec: Seq<bool>, want: bool, k: int)
    requires
        dec.len() == items.len(),
        0 <= k < spec_pick(items, dec, want).len(),
    ensures
        items.contains(spec_pick(items, dec, want)[k]),
    decreases items.len(),
{
    let r = spec_pick(items.drop_last(), dec.drop_last(), want);
    if k < r.len() {
        lemma_pick_valid(items.drop_last(), dec.drop_last(), want, k);
        let x = r[k];
        let j = choose|j: int| 0 <= j < items.drop_last().len() && items.drop_last()[j] == x;
        assert(items[j] == x);
    } else {
        assert(items[items.len() - 1] == items.last());
    }
}

/// Where a cleanup run stands.
pub struct CleanupRun {
    ages: Vec<u64>,
    sizes: Vec<u64>,
    favorite: Vec<bool>,
    order: Vec<usize>,
    max_age_days: u32,
    max_bytes: Option<u64>,
    /// 0: age limit, 1: size limit, 2: free disk space, 3: done.
    stage: u8,
    /// Position in the list the current phase walks.
    pos: usize,
    /// The clips the age limit kept, in cleanup order.
    kept: Vec<usize>,
    /// The clips the size limit kept, in cleanup order.
    still: Vec<usize>,
    /// The clip offered and awaiting its outcome.
    pending: Option<usize>,
    tally: CleanupTally,
    created: Ghost<Seq<u64>>,
    /// The size limit's decision for each clip of `kept` walked so far.
    storage_dec: Ghost<Seq<bool>>,
    /// The clips deleted so far, in order.
    deleted_log: Ghost<Seq<usize>>,
}

impl CleanupRun {
    /// Number of clips in the library.
    pub closed spec fn clip_count(&self) -> nat {
        self.ages@.len()
    }

    /// The clips' ages in seconds.
    pub closed spec fn ages(&self) -> Seq<u64> {
        self.ages@
    }

    /// The clips' sizes in bytes.
    pub closed spec fn sizes(&self) -> Seq<u64> {
        self.sizes@
    }

    /// Which clips are favourites.
    pub closed spec fn favorites(&self) -> Seq<bool> {
        self.favorite@
    }

    /// The clips' creation times the order was made from.
    pub closed spec fn created(&self) -> Seq<u64> {
        self.created@
    }

    /// All clips, oldest first (see `spec_is_cleanup_order`).
    pub closed spec fn order(&self) -> Seq<usize> {
        self.order@
    }

    /// The age limit in days (0: none).
    pub closed spec fn max_age_days(&self) -> u32 {
        self.max_age_days
    }

    /// The size limit in bytes (`None`: no size limit).
    pub closed spec fn max_bytes(&self) -> Option<u64> {
        self.max_bytes
    }

    /// The phase: 0 age limit, 1 size limit, 2 free disk space, 3 done.
    pub closed spec fn stage(&self) -> u8 {
        self.stage
    }

    /// The clips the age limit keeps (once that phase is over).
    pub closed spec fn kept(&self) -> Seq<usize> {
        self.kept@
    }

    /// The clips the size limit kept so far.
    pub closed spec fn still(&self) -> Seq<usize> {
        self.still@
    }

    /// The clip awaiting its outcome.
    pub closed spec fn pending(&self) -> Option<usize> {
        self.pending
    }

    /// What the run has done so far.
    pub closed spec fn tally_of(&self) -> CleanupTally {
        self.tally
    }

    /// The clips deleted so far, in order.
    pub closed spec fn deleted(&self) -> Seq<usize> {
        self.deleted_log@
    }

    /// The clips offered by the age limit so far, in order.
    pub closed spec fn age_tried(&self) -> Seq<usize> {
        if self.stage == 0 {
            spec_age_tried(self.order@.subrange(0, self.pos as int), self.ages@, self.favorite@, self.max_age_days)
        } else {
            spec_age_tried(self.order@, self.ages@, self.favorite@, self.max_age_days)
        }
    }

    /// The clips offered by the size limit so far, in order.
    pub closed spec fn storage_tried(&self) -> Seq<usize> {
        if self.stage == 0 {
            Seq::empty()
        } else if self.stage == 1 {
            spec_pick(self.kept@.subrange(0, self.pos as int), self.storage_dec@, true)
        } else {
            spec_pick(self.kept@, self.storage_dec@, true)
        }
    }

    /// The clips offered for free disk space so far, in order.
    pub closed spec fn space_tried(&self) -> Seq<usize> {
        if self.stage >= 2 {
            self.still@.subrange(0, self.pos as int)
        } else {
            Seq::empty()
        }
    }

    /// Every clip offered so far, in order.
    pub open spec fn tried(&self) -> Seq<usize> {
        self.age_tried() + self.storage_tried() + self.space_tried()
    }

    /// The run's consistency.
    pub closed spec fn wf(&self) -> bool {
        let n = self.ages@.len();
        &&& self.sizes@.len() == n
        &&& self.favorite@.len() == n
        &&& self.created@.len() == n
        &&& spec_is_cleanup_order(self.created@, self.order@)
        &&& self.stage <= 3
        &&& self.stage == 0 ==> {
            &&& self.pos <= self.order@.len()
            &&& self.kept@ == spec_age_kept(self.order@.subrange(0, self.pos as int), self.ages@, self.favorite@, self.max_age_days)
            &&& self.storage_dec@.len() == 0
            &&& self.still@.len() == 0
        }
        &&& self.stage >= 1 ==> self.kept@ == spec_age_kept(self.order@, self.ages@, self.favorite@, self.max_age_days)
        &&& self.stage == 1 ==> {
            &&& self.pos <= self.kept@.len()
            &&& self.storage_dec@.len() == self.pos
            &&& self.still@ == spec_pick(self.kept@.subrange(0, self.pos as int), self.storage_dec@, false)
        }
        &&& self.stage >= 2 ==> {
            &&& self.storage_dec@.len() == self.kept@.len()
            &&& self.still@ == spec_pick(self.kept@, self.storage_dec@, false)
            &&& self.pos <= self.still@.len()
        }
        &&& self.pending matches Some(i) ==> (self.tried().len() > 0 && self.tried().last() == i)
        &&& forall|k: int| 0 <= k < self.tried().len() ==> (#[trigger] self.tried()[k] as int) < n
            && !self.favorite@[self.tried()[k] as int]
        &&& forall|k: int| 0 <= k < self.deleted_log@.len() ==> self.tried().contains(#[trigger] self.deleted_log@[k])
        &&& self.tally.clips_deleted == self.deleted_log@.len()
        &&& self.tally.freed_bytes == spec_sizes_of(self.sizes@, self.deleted_log@)
    }

    /// A run over clips created at `created` (one entry per clip), of ages
    /// `ages` (seconds) and sizes `sizes` (bytes), with the favourites
    /// flagged, under an age limit of `max_age_days` (0: none) and a size
    /// limit of `max_bytes` (`None`: none), over a library of `total_bytes`.
    pub fn new(
        created: &Vec<u64>,
        ages: Vec<u64>,
        sizes: Vec<u64>,
        favorite: Vec<bool>,
        max_age_days: u32,
        max_bytes: Option<u64>,
        total_bytes: u64,
    ) -> (r: Self)
        requires
            ages@.len() == created@.len(),
            sizes@.len() == created@.len(),
            favorite@.len() == created@.len(),
        ensures
            r.wf(),
            r.stage() == 0,
            r.created() == created@,
            r.ages() == ages@,
            r.sizes() == sizes@,
            r.favorites() == favorite@,
            r.max_age_days() == max_age_days,
            r.max_bytes() == max_bytes,
            r.tried() == Seq::<usize>::empty(),
            r.deleted() == Seq::<usize>::empty(),
            r.pending() is None,
            r.tally_of() == (CleanupTally { clips_deleted: 0, freed_bytes: 0, total_bytes }),
    {
        let order = cleanup_order(created);
        let r = CleanupRun {
            ages,
            sizes,
            favorite,
            order,
            max_age_days,
            max_bytes,
            stage: 0,
            pos: 0,
            kept: Vec::new(),
            still: Vec::new(),
            pending: None,
            tally: CleanupTally::new(total_bytes),
            created: Ghost(created@),
            storage_dec: Ghost(Seq::empty()),
            deleted_log: Ghost(Seq::empty()),
        };
        assert(r.order@.subrange(0, 0) =~= Seq::<usize>::empty());
        assert(r.tried() =~= Seq::<usize>::empty());
        r
    }

    /// What the run has done so far.
    pub fn tally(&self) -> (t: CleanupTally)
        ensures
            t == self.tally_of(),
    {
        self.tally
    }

    /// The next clip the age or size limit deletes, or `None` once both
    /// phases are over. In the age phase the clips are walked oldest first
    /// and every non-favourite past the age limit is offered; in the size
    /// phase the clips the age limit kept are walked oldest first and offered
    /// while the library exceeds the size limit, the rest being kept for the
    /// free-space phase.
    pub fn next(&mut self) -> (r: Option<usize>)
        requires
            old(self).wf(),
            old(self).pending() is None,
        ensures
            final(self).wf(),
            final(self).created() == old(self).created(),
            final(self).ages() == old(self).ages(),
            final(self).sizes() == old(self).sizes(),
            final(self).favorites() == old(self).favorites(),
            final(self).max_age_days() == old(self).max_age_days(),
            final(self).max_bytes() == old(self).max_bytes(),
            final(self).tally_of() == old(self).tally_of(),
            final(self).deleted() == old(self).deleted(),
            final(self).pending() == r,
            old(self).stage() >= 2 ==> r is None && final(self).stage() == old(self).stage()
                && final(self).tried() == old(self).tried(),
            r matches Some(i) ==> final(self).tried() == old(self).tried().push(i) && final(self).stage() <= 1,
            r matches Some(i) && final(self).stage() == 1 ==> spec_storage_due(old(self).tally_of().total_bytes, old(self).max_bytes()),
            r is None ==> final(self).tried() == old(self).tried() && final(self).stage() >= 2,
            final(self).still().len() > old(self).still().len() ==> !spec_storage_due(old(self).tally_of().total_bytes, old(self).max_bytes()),
            old(self).stage() >= 1 ==> final(self).age_tried() == old(self).age_tried(),
    {
        if self.stage >= 2 {
            return None;
        }
        if self.stage == 0 {
            while self.pos < self.order.len()
                invariant
                    self.wf(),
                    self.stage == 0,
                    old(self).stage == 0,
                    self.order@ == old(self).order@,
                    self.pending is None,
                    self.ages@ == old(self).ages@,
                    self.sizes@ == old(self).sizes@,
                    self.favorite@ == old(self).favorite@,
                    self.created@ == old(self).created@,
                    self.max_age_days == old(self).max_age_days,
                    self.max_bytes == old(self).max_bytes,
                    self.tally == old(self).tally,
                    self.deleted_log@ == old(self).deleted_log@,
                    self.tried() == old(self).tried(),
                    self.still@ == old(self).still@,
                decreases self.order@.len() - self.pos,
            {
                let i = self.order[self.pos];
                let ghost before = self.order@.subrange(0, self.pos as int);
                let ghost t0 = self.tried();
                proof {
                    assert(self.order@.subrange(0, self.pos + 1).drop_last() =~= before);
                    assert(self.order@.subrange(0, self.pos + 1).last() == i);
                    assert((i as int) < self.ages@.len());
                }
                self.pos = self.pos + 1;
                let due = !self.favorite[i] && should_delete(
                    CleanupPhase::Age,
                    self.ages[i],
                    self.max_age_days,
                    0,
                    0,
                );
                if due {
                    self.pending = Some(i);
                    proof {
                        assert(self.age_tried() == spec_age_tried(before, self.ages@, self.favorite@, self.max_age_days).push(i));
                        assert(self.tried() =~= t0.push(i));
                        assert forall|k: int| 0 <= k < self.deleted_log@.len() implies self.tried().contains(
                            #[trigger] self.deleted_log@[k],
                        ) by {
                            let x = self.deleted_log@[k];
                            assert(t0.contains(x));
                            let j = choose|j: int| 0 <= j < t0.len() && t0[j] == x;
                            assert(self.tried()[j] == x);
                        }
                    }
                    return Some(i);
                }
                if !self.favorite[i] {
                    self.kept.push(i);
                }
                proof {
                    assert(self.age_tried() == spec_age_tried(before, self.ages@, self.favorite@, self.max_age_days));
                    assert(self.tried() =~= t0);
                }
            }
            self.stage = 1;
            self.pos = 0;
            proof {
                assert(old(self).order@.subrange(0, old(self).order@.len() as int) =~= self.order@);
                assert(self.kept@.subrange(0, 0) =~= Seq::<usize>::empty());
                assert(self.storage_tried() =~= Seq::<usize>::empty());
                assert(self.tried() =~= old(self).tried());
                assert(self.kept@ == spec_age_kept(self.order@, self.ages@, self.favorite@, self.max_age_days));
                assert(self.still@ == spec_pick(self.kept@.subrange(0, self.pos as int), self.storage_dec@, false));
                assert(self.pending matches Some(i) ==> (self.tried().len() > 0 && self.tried().last() == i));
                assert(forall|k: int| 0 <= k < self.tried().len() ==> (#[trigger] self.tried()[k] as int) < self.ages@.len()
                    && !self.favorite@[self.tried()[k] as int]);
                assert(forall|k: int| 0 <= k < self.deleted_log@.len() ==> self.tried().contains(#[trigger] self.deleted_log@[k]));
                assert(self.wf());
            }
        }
        let ghost age_t = self.age_tried();
        while self.pos < self.kept.len()
            invariant
                self.wf(),
                self.stage == 1,
                old(self).stage <= 1,
                self.order@ == old(self).order@,
                self.pending is None,
                self.ages@ == old(self).ages@,
                self.sizes@ == old(self).sizes@,
                self.favorite@ == old(self).favorite@,
                self.created@ == old(self).created@,
                self.max_age_days == old(self).max_age_days,
                self.max_bytes == old(self).max_bytes,
                self.tally == old(self).tally,
                self.deleted_log@ == old(self).deleted_log@,
                self.tried() == old(self).tried(),
                self.age_tried() == age_t,
                old(self).stage >= 1 ==> age_t == old(self).age_tried(),
                self.still@.len() > old(self).still@.len() ==> !spec_storage_due(old(self).tally.total_bytes, old(self).max_bytes),
            decreases self.kept@.len() - self.pos,
        {
            let i = self.kept[self.pos];
            let ghost before = self.kept@.subrange(0, self.pos as int);
            let ghost t0 = self.tried();
            let ghost d0 = self.storage_dec@;
            proof {
                assert(self.kept@.subrange(0, self.pos + 1).drop_last() =~= before);
                assert(self.kept@.subrange(0, self.pos + 1).last() == i);
                lemma_age_kept_valid(self.order@, self.ages@, self.favorite@, self.max_age_days, self.pos as int);
                let j = choose|j: int| 0 <= j < self.order@.len() && self.order@[j] == i;
                assert((self.order@[j] as int) < self.created@.len());
            }
            self.pos = self.pos + 1;
            let due = match self.max_bytes {
                Some(m) => should_delete(CleanupPhase::Storage, 0, 0, self.tally.total_bytes, m),
                None => false,
            };
            if due {
                self.storage_dec = Ghost(d0.push(true));
                self.pending = Some(i);
                proof {
                    assert(self.storage_dec@.drop_last() =~= d0);
                    assert(self.storage_tried() == spec_pick(before, d0, true).push(i));
                    assert(self.still@ == spec_pick(before, d0, false));
                    assert(self.tried() =~= t0.push(i));
                    assert forall|k: int| 0 <= k < self.deleted_log@.len() implies self.tried().contains(
                        #[trigger] self.deleted_log@[k],
                    ) by {
                        let x = self.deleted_log@[k];
                        assert(t0.contains(x));
                        let j = choose|j: int| 0 <= j < t0.len() && t0[j] == x;
                        assert(self.tried()[j] == x);
                    }
                }
                return Some(i);
            }
            self.storage_dec = Ghost(d0.push(false));
            self.still.push(i);
            proof {
                assert(self.storage_dec@.drop_last() =~= d0);
                assert(self.storage_tried() == spec_pick(before, d0, true));
                assert(self.tried() =~= t0);
            }
        }
        self.stage = 2;
        let ghost t1 = self.tried();
        self.pos = 0;
        proof {
            assert(self.kept@.subrange(0, self.kept@.len() as int) =~= self.kept@);
            assert(self.still@.subrange(0, 0) =~= Seq::<usize>::empty());
            assert(self.tried() =~= old(self).tried());
        }
        None
    }

    /// The next clip to delete for free disk space: while the disk has not
    /// `enough_space`, the clips the size limit kept, oldest first; `None`
    /// once the disk has enough space or no clip is left, which ends the run.
    pub fn next_for_space(&mut self, enough_space: bool) -> (r: Option<usize>)
        requires
            old(self).wf(),
            old(self).pending() is None,
            old(self).stage() >= 2,
        ensures
            final(self).wf(),
            final(self).created() == old(self).created(),
            final(self).ages() == old(self).ages(),
            final(self).sizes() == old(self).sizes(),
            final(self).favorites() == old(self).favorites(),
            final(self).max_age_days() == old(self).max_age_days(),
            final(self).max_bytes() == old(self).max_bytes(),
            final(self).tally_of() == old(self).tally_of(),
            final(self).deleted() == old(self).deleted(),
            final(self).still() == old(self).still(),
            final(self).pending() == r,
            r == (if old(self).stage() == 2 && !enough_space && old(self).space_tried().len() < old(self).still().len() {
                Some(old(self).still()[old(self).space_tried().len() as int])
            } else {
                None::<usize>
            }),
            r matches Some(i) ==> final(self).tried() == old(self).tried().push(i) && final(self).stage() == 2,
            r is None ==> final(self).tried() == old(self).tried() && final(self).stage() == 3,
    {
        let ghost t0 = self.tried();
        let ghost a0 = self.age_tried();
        let ghost s0 = self.storage_tried();
        if self.stage == 2 && !enough_space && self.pos < self.still.len() {
            let i = self.still[self.pos];
            proof {
                lemma_pick_valid(self.kept@, self.storage_dec@, false, self.pos as int);
                let j = choose|j: int| 0 <= j < self.kept@.len() && self.kept@[j] == i;
                lemma_age_kept_valid(self.order@, self.ages@, self.favorite@, self.max_age_days, j);
                let m = choose|m: int| 0 <= m < self.order@.len() && self.order@[m] == i;
                assert((self.order@[m] as int) < self.created@.len());
            }
            self.pos = self.pos + 1;
            self.pending = Some(i);
            proof {
                assert(self.age_tried() == a0);
                assert(self.storage_tried() == s0);
                assert(self.space_tried() =~= old(self).space_tried().push(i));
                assert(self.tried() =~= t0.push(i));
                assert forall|k: int| 0 <= k < self.deleted_log@.len() implies self.tried().contains(
                    #[trigger] self.deleted_log@[k],
                ) by {
                    let x = self.deleted_log@[k];
                    assert(t0.contains(x));
                    let j = choose|j: int| 0 <= j < t0.len() && t0[j] == x;
                    assert(self.tried()[j] == x);
                }
            }
            Some(i)
        } else {
            self.stage = 3;
            proof {
                assert(self.age_tried() == a0);
                assert(self.storage_tried() == s0);
                assert(self.tried() =~= t0);
            }
            None
        }
    }

    /// Records whether deleting the offered clip succeeded: a deletion counts,
    /// frees the clip's size and shrinks the library (see
    /// `CleanupTally::record`); a failed one changes nothing.
    pub fn record(&mut self, deleted: bool)
        requires
            old(self).wf(),
            old(self).pending() matches Some(i) && old(self).tally_of().clips_deleted < usize::MAX
                && old(self).tally_of().freed_bytes + old(self).sizes()[i as int] <= u64::MAX,
        ensures
            final(self).wf(),
            final(self).created() == old(self).created(),
            final(self).ages() == old(self).ages(),
            final(self).sizes() == old(self).sizes(),
            final(self).favorites() == old(self).favorites(),
            final(self).max_age_days() == old(self).max_age_days(),
            final(self).max_bytes() == old(self).max_bytes(),
            final(self).stage() == old(self).stage(),
            final(self).still() == old(self).still(),
            final(self).tried() == old(self).tried(),
            final(self).pending() is None,
            old(self).pending() matches Some(i) && {
                let size = old(self).sizes()[i as int];
                let t = old(self).tally_of();
                &&& deleted ==> final(self).deleted() == old(self).deleted().push(i)
                    && final(self).tally_of() == (CleanupTally {
                        clips_deleted: (t.clips_deleted + 1) as usize,
                        freed_bytes: (t.freed_bytes + size) as u64,
                        total_bytes: if t.total_bytes >= size {
                            (t.total_bytes - size) as u64
                        } else {
                            0u64
                        },
                    })
                &&& !deleted ==> final(self).deleted() == old(self).deleted() && final(self).tally_of() == t
            },
    {
        let i = match self.pending {
            Some(i) => i,
            None => 0,
        };
        let ghost t0 = self.tried();
        let ghost a0 = self.age_tried();
        let ghost s0 = self.storage_tried();
        let ghost p0 = self.space_tried();
        let size = self.sizes[i];
        self.tally.record(size, deleted);
        if deleted {
            let ghost l0 = self.deleted_log@;
            self.deleted_log = Ghost(l0.push(i));
            proof {
                assert(self.deleted_log@.drop_last() =~= l0);
            }
        }
        self.pending = None;
        proof {
            assert(self.age_tried() == a0);
            assert(self.storage_tried() == s0);
            assert(self.space_tried() == p0);
            assert(t0[t0.len() - 1] == i);
        }
    }
}

/// What a cleanup run keeps to, at every step: it offers only clips of the
/// library that are not favourites; the age phase offers exactly the
/// non-favourites past the age limit, oldest first; every deleted clip was
/// offered; and the run counts exactly the deletions that succeeded and
/// frees exactly their sizes.
pub proof fn lemma_cleanup_run(run: CleanupRun)
    requires
        run.wf(),
    ensures
        forall|k: int| 0 <= k < run.tried().len() ==> (#[trigger] run.tried()[k] as int) < run.clip_count()
            && !run.favorites()[run.tried()[k] as int],
        spec_is_cleanup_order(run.created(), run.order()),
        run.stage() >= 1 ==> run.age_tried() == spec_age_tried(
            run.order(),
            run.ages(),
            run.favorites(),
            run.max_age_days(),
        ),
        forall|k: int| 0 <= k < run.deleted().len() ==> run.tried().contains(#[trigger] run.deleted()[k]),
        run.tally_of().clips_deleted == run.deleted().len(),
        run.tally_of().freed_bytes == spec_sizes_of(run.sizes(), run.deleted()),
{
}

} // verus!
