//! Video slots: for each source the last frame received from it.

use vstd::prelude::*;
use vstd::slice::slice_to_vec;

verus! {

/// A camera frame as it came off the wire: encoded image bytes and the
/// resolution they were taken at.
#[derive(Debug, PartialEq, Eq)]
pub struct VideoFrame {
    pub data: Vec<u8>,
    pub width: u32,
    pub height: u32,
}

/// The mathematical content of a frame.
pub struct FrameModel {
    pub data: Seq<u8>,
    pub width: u32,
    pub height: u32,
}

impl View for VideoFrame {
    type V = FrameModel;

    open spec fn view(&self) -> FrameModel {
        FrameModel { data: self.data@, width: self.width, height: self.height }
    }
}

impl VideoFrame {
    /// A frame of its own with the same content.
    pub fn copy(&self) -> (frame: VideoFrame)
        ensures
            frame@ == self@,
    {
        VideoFrame { data: slice_to_vec(self.data.as_slice()), width: self.width, height: self.height }
    }
}

/// The last frame of one source, and how often the slot has been written.
#[derive(Debug, PartialEq, Eq)]
pub struct VideoSlot {
    pub source_index: u32,
    pub last_frame: VideoFrame,
    pub revision: u64,
}

/// The mathematical content of a slot.
pub struct SlotModel {
    pub source: u32,
    pub frame: FrameModel,
    pub revision: u64,
}

impl View for VideoSlot {
    type V = SlotModel;

    open spec fn view(&self) -> SlotModel {
        SlotModel { source: self.source_index, frame: self.last_frame@, revision: self.revision }
    }
}

impl VideoSlot {
    /// A slot of its own with the same content.
    pub fn copy(&self) -> (slot: VideoSlot)
        ensures
            slot@ == self@,
    {
        VideoSlot {
            source_index: self.source_index,
            last_frame: self.last_frame.copy(),
            revision: self.revision,
        }
    }
}

/// The revision after `revision`: one more, and zero after the largest.
pub open spec fn next_revision(revision: u64) -> u64 {
    if revision == u64::MAX {
        0
    } else {
        (revision + 1) as u64
    }
}

/// No two slots are of the same source.
pub open spec fn distinct_sources(slots: Seq<SlotModel>) -> bool {
    forall|i: int, j: int|
        0 <= i < j < slots.len() ==> (#[trigger] slots[i]).source != (#[trigger] slots[j]).source
}

/// Whether a slot of `source` is at index `i`.
pub open spec fn slot_at(slots: Seq<SlotModel>, source: u32, i: int) -> bool {
    0 <= i < slots.len() && slots[i].source == source
}

/// Whether `source` has a slot.
pub open spec fn has_slot(slots: Seq<SlotModel>, source: u32) -> bool {
    exists|i: int| slot_at(slots, source, i)
}

/// The index of the slot of `source`, if it has one.
pub open spec fn slot_index(slots: Seq<SlotModel>, source: u32) -> int {
    choose|i: int| slot_at(slots, source, i)
}

/// The frame that the slot of `source` holds, if `source` has a slot.
pub open spec fn frame_of(slots: Seq<SlotModel>, source: u32) -> Option<FrameModel> {
    if has_slot(slots, source) {
        Some(slots[slot_index(slots, source)].frame)
    } else {
        None
    }
}

/// The revision of the slot of `source`; zero if `source` has no slot.
pub open spec fn revision_of(slots: Seq<SlotModel>, source: u32) -> u64 {
    if has_slot(slots, source) {
        slots[slot_index(slots, source)].revision
    } else {
        0
    }
}

/// The slots after a frame of `source` arrived: the slot of `source` holds the
/// new frame in place of whatever it held, at the next revision; a source
/// seen for the first time gets a new slot behind the others. No other slot
/// changes.
pub open spec fn store(slots: Seq<SlotModel>, source: u32, frame: FrameModel) -> Seq<SlotModel> {
    let slot = SlotModel { source, frame, revision: next_revision(revision_of(slots, source)) };
    if has_slot(slots, source) {
        slots.update(slot_index(slots, source), slot)
    } else {
        slots.push(slot)
    }
}

/// The slots after the frames `arrivals` arrived in order, each with its
/// source.
pub open spec fn store_all(slots: Seq<SlotModel>, arrivals: Seq<(u32, FrameModel)>) -> Seq<
    SlotModel,
>
    decreases arrivals.len(),
{
    if arrivals.len() == 0 {
        slots
    } else {
        store(store_all(slots, arrivals.drop_last()), arrivals.last().0, arrivals.last().1)
    }
}

/// Where no two slots are of the same source, the slot of a source is the
/// one found at any index that holds that source.
pub proof fn lemma_slot_index_unique(slots: Seq<SlotModel>, source: u32, i: int)
    requires
        distinct_sources(slots),
        slot_at(slots, source, i),
    ensures
        has_slot(slots, source),
        slot_index(slots, source) == i,
{
    let k = slot_index(slots, source);
    assert(slot_at(slots, source, k));
    if k < i {
        assert(slots[k].source != slots[i].source);
    } else if i < k {
        assert(slots[i].source != slots[k].source);
    }
}

/// A frame that arrives replaces the frame of its source and touches the slot
/// of no other source: the slot of the source holds the new frame at the
/// next revision, every other source keeps its frame and its revision, and no
/// source has two slots.
pub proof fn lemma_store(slots: Seq<SlotModel>, source: u32, frame: FrameModel)
    requires
        distinct_sources(slots),
    ensures
        distinct_sources(store(slots, source, frame)),
        frame_of(store(slots, source, frame), source) == Some(frame),
        revision_of(store(slots, source, frame), source) == next_revision(
            revision_of(slots, source),
        ),
        forall|other: u32|
            other != source ==> {
                &&& has_slot(store(slots, source, frame), other) == has_slot(slots, other)
                &&& #[trigger] frame_of(store(slots, source, frame), other) == frame_of(
                    slots,
                    other,
                )
                &&& revision_of(store(slots, source, frame), other) == revision_of(slots, other)
            },
{
    let after = store(slots, source, frame);
    let at: int = if has_slot(slots, source) {
        slot_index(slots, source)
    } else {
        slots.len() as int
    };
    if has_slot(slots, source) {
        assert(slot_at(slots, source, at));
    }
    assert(slot_at(after, source, at));
    assert(distinct_sources(after)) by {
        assert forall|i: int, j: int| 0 <= i < j < after.len() implies (#[trigger] after[i]).source
            != (#[trigger] after[j]).source by {
            if has_slot(slots, source) {
                assert(after[i].source == slots[i].source);
                assert(after[j].source == slots[j].source);
            } else {
                if j == slots.len() {
                    assert(!slot_at(slots, source, i));
                }
            }
        }
    }
    lemma_slot_index_unique(after, source, at);
    assert forall|other: u32| other != source implies {
        &&& has_slot(after, other) == has_slot(slots, other)
        &&& #[trigger] frame_of(after, other) == frame_of(slots, other)
        &&& revision_of(after, other) == revision_of(slots, other)
    } by {
        if has_slot(slots, other) {
            let k = slot_index(slots, other);
            assert(slot_at(slots, other, k));
            assert(slot_at(after, other, k));
            lemma_slot_index_unique(after, other, k);
        } else if has_slot(after, other) {
            let k = slot_index(after, other);
            assert(slot_at(after, other, k));
            assert(slot_at(slots, other, k));
        }
    }
}

/// Frames that arrive never give a source two slots.
pub proof fn lemma_store_all_distinct(slots: Seq<SlotModel>, arrivals: Seq<(u32, FrameModel)>)
    requires
        distinct_sources(slots),
    ensures
        distinct_sources(store_all(slots, arrivals)),
    decreases arrivals.len(),
{
    if arrivals.len() > 0 {
        lemma_store_all_distinct(slots, arrivals.drop_last());
        lemma_store(
            store_all(slots, arrivals.drop_last()),
            arrivals.last().0,
            arrivals.last().1,
        );
    }
}

/// Last write wins: after any sequence of frames has arrived, the slot of a
/// source holds the frame that arrived last from that source, and a source
/// from which none arrived holds what it held before.
pub proof fn lemma_last_write_wins(
    slots: Seq<SlotModel>,
    arrivals: Seq<(u32, FrameModel)>,
    source: u32,
)
    requires
        distinct_sources(slots),
    ensures
        forall|j: int|
            0 <= j < arrivals.len() && (#[trigger] arrivals[j]).0 == source && (forall|k: int|
                j < k < arrivals.len() ==> (#[trigger] arrivals[k]).0 != source) ==> frame_of(
                store_all(slots, arrivals),
                source,
            ) == Some(arrivals[j].1),
        (forall|k: int| 0 <= k < arrivals.len() ==> (#[trigger] arrivals[k]).0 != source)
            ==> frame_of(store_all(slots, arrivals), source) == frame_of(slots, source),
    decreases arrivals.len(),
{
    if arrivals.len() > 0 {
        let earlier = arrivals.drop_last();
        let last = arrivals.last();
        lemma_last_write_wins(slots, earlier, source);
        lemma_store_all_distinct(slots, earlier);
        lemma_store(store_all(slots, earlier), last.0, last.1);
        assert forall|j: int|
            0 <= j < arrivals.len() && (#[trigger] arrivals[j]).0 == source && (forall|k: int|
                j < k < arrivals.len() ==> (#[trigger] arrivals[k]).0
                    != source) implies frame_of(store_all(slots, arrivals), source) == Some(
            arrivals[j].1,
        ) by {
            if j < arrivals.len() - 1 {
                assert(arrivals[arrivals.len() - 1].0 != source);
                assert(earlier[j] == arrivals[j]);
                assert forall|k: int| j < k < earlier.len() implies (#[trigger] earlier[k]).0
                    != source by {
                    assert(earlier[k] == arrivals[k]);
                }
            }
        }
        if forall|k: int| 0 <= k < arrivals.len() ==> (#[trigger] arrivals[k]).0 != source {
            assert(arrivals[arrivals.len() - 1].0 != source);
            assert forall|k: int| 0 <= k < earlier.len() implies (#[trigger] earlier[k]).0
                != source by {
                assert(earlier[k] == arrivals[k]);
            }
        }
    }
}

/// The content of each of `slots`.
pub open spec fn slot_models(slots: Seq<VideoSlot>) -> Seq<SlotModel> {
    Seq::new(slots.len(), |i: int| slots[i]@)
}

/// The index in `slots` of the slot of `source`, if it has one.
fn position(slots: &Vec<VideoSlot>, source: u32) -> (at: Option<usize>)
    requires
        distinct_sources(slot_models(slots@)),
    ensures
        at is Some == has_slot(slot_models(slots@), source),
        at matches Some(i) ==> i < slots@.len() && i == slot_index(slot_models(slots@), source),
{
    let mut i: usize = 0;
    while i < slots.len()
        invariant
            i <= slots.len(),
            distinct_sources(slot_models(slots@)),
            forall|k: int| 0 <= k < i ==> !slot_at(slot_models(slots@), source, k),
        decreases slots.len() - i,
    {
        if slots[i].source_index == source {
            proof {
                assert(slot_at(slot_models(slots@), source, i as int));
                lemma_slot_index_unique(slot_models(slots@), source, i as int);
            }
            return Some(i);
        }
        i += 1;
    }
    None
}

/// The video slots of a session, in the order in which their sources were
/// first seen.
#[derive(Debug)]
pub struct VideoSlots {
    slots: Vec<VideoSlot>,
}

impl View for VideoSlots {
    type V = Seq<SlotModel>;

    closed spec fn view(&self) -> Seq<SlotModel> {
        slot_models(self.slots@)
    }
}

impl VideoSlots {
    /// What holds of every set of slots: no source has two.
    #[verifier::type_invariant]
    pub open spec fn wf(&self) -> bool {
        distinct_sources(self@)
    }

    /// No slots.
    pub fn new() -> (slots: VideoSlots)
        ensures
            slots@ == Seq::<SlotModel>::empty(),
    {
        let slots = VideoSlots { slots: Vec::new() };
        assert(slots@ =~= Seq::<SlotModel>::empty());
        slots
    }

    /// The number of slots.
    pub fn len(&self) -> (len: usize)
        ensures
            len == self@.len(),
            distinct_sources(self@),
    {
        proof {
            use_type_invariant(self);
        }
        self.slots.len()
    }

    /// The slot at index `i`, if there is one.
    pub fn get(&self, i: usize) -> (slot: Option<&VideoSlot>)
        ensures
            slot is Some == (i < self@.len()),
            slot matches Some(s) ==> s@ == self@[i as int],
    {
        if i < self.slots.len() {
            Some(&self.slots[i])
        } else {
            None
        }
    }

    /// The slot of `source`, if it has one.
    pub fn find(&self, source: u32) -> (slot: Option<&VideoSlot>)
        ensures
            slot is Some == has_slot(self@, source),
            slot matches Some(s) ==> s@ == self@[slot_index(self@, source)],
    {
        proof {
            use_type_invariant(self);
        }
        match position(&self.slots, source) {
            Some(i) => Some(&self.slots[i]),
            None => None,
        }
    }

    /// Takes a frame that arrived from `source`: it replaces the frame that
    /// the slot of `source` held, and the slot's revision goes up by one. A
    /// source seen for the first time gets a new slot behind the others.
    pub fn store(&mut self, source: u32, frame: VideoFrame)
        ensures
            final(self)@ == store(old(self)@, source, frame@),
            distinct_sources(final(self)@),
    {
        proof {
            use_type_invariant(&*self);
            lemma_store(self@, source, frame@);
        }
        let mut slots: Vec<VideoSlot> = Vec::new();
        std::mem::swap(&mut self.slots, &mut slots);
        match position(&slots, source) {
            Some(i) => {
                let revision: u64 = slots[i].revision;
                let next: u64 = if revision == u64::MAX {
                    0
                } else {
                    revision + 1
                };
                slots.set(i, VideoSlot { source_index: source, last_frame: frame, revision: next });
            },
            None => {
                slots.push(VideoSlot { source_index: source, last_frame: frame, revision: 1 });
            },
        }
        assert(slot_models(slots@) =~= store(old(self)@, source, frame@));
        self.slots = slots;
    }

    /// Slots of their own with the same content, in the same order.
    pub fn snapshot(&self) -> (copy: Vec<VideoSlot>)
        ensures
            slot_models(copy@) == self@,
    {
        let mut copy: Vec<VideoSlot> = Vec::new();
        let mut i: usize = 0;
        while i < self.slots.len()
            invariant
                i <= self.slots.len(),
                copy@.len() == i,
                forall|k: int| 0 <= k < i ==> (#[trigger] copy@[k])@ == self@[k],
            decreases self.slots.len() - i,
        {
            copy.push(self.slots[i].copy());
            i += 1;
        }
        assert(slot_models(copy@) =~= self@);
        copy
    }
}

} // verus!
