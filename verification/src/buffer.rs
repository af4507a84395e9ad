//! The executable gap buffer.

use crate::model::{grown_len, text_of, Model, SENTINEL};
use vstd::prelude::*;

verus! {

/// An editable sequence of characters in one contiguous storage.
///
/// The slots from `start` up to `end` are the gap; the slots before and behind
/// it hold the text. `point` counts characters of the text, not slots.
pub struct GapBuffer {
    /// The capacity that the buffer was made with. Growth leaves it as it was:
    /// the live capacity is the length of `buffer`.
    pub size: usize,
    /// The first slot of the gap.
    pub start: usize,
    /// The first slot behind the gap.
    pub end: usize,
    /// The storage: text, gap, text.
    pub buffer: Vec<char>,
    /// The cursor, as an offset into the text.
    pub point: usize,
}

impl View for GapBuffer {
    type V = Model;

    open spec fn view(&self) -> Model {
        Model {
            text: text_of(self.buffer@, self.start as nat, self.end as nat),
            point: self.point as nat,
            gap_at: self.start as nat,
            gap_len: (self.end - self.start) as nat,
            declared: self.size as nat,
        }
    }
}

impl GapBuffer {
    /// The gap lies within the storage and holds nothing but the sentinel, and
    /// the cursor lies within the text.
    pub open spec fn wf(&self) -> bool {
        &&& self.start <= self.end <= self.buffer@.len()
        &&& self.point <= self.buffer@.len() - (self.end - self.start)
        &&& forall|i: int| self.start <= i < self.end ==> self.buffer@[i] == SENTINEL
    }

    /// Of a well-formed buffer the model tells every slot.
    pub proof fn lemma_storage(&self)
        requires
            self.wf(),
        ensures
            self@.inv(),
            self@.text.len() == self.buffer@.len() - (self.end - self.start),
            self.buffer@ == self@.storage(),
    {
        assert(self.buffer@ =~= self@.storage());
    }

    /// A buffer without text: `size` slots, all of them gap, the cursor at 0.
    pub fn new(size: usize) -> (made: GapBuffer)
        ensures
            made.wf(),
            made@ == Model::empty(size as nat),
            made.buffer@ == Seq::new(size as nat, |i: int| SENTINEL),
    {
        let made = GapBuffer {
            size: size,
            start: 0,
            end: size,
            buffer: vec![SENTINEL; size],
            point: 0,
        };
        assert(made@.text =~= Seq::<char>::empty());
        assert(made.buffer@ =~= Seq::new(size as nat, |i: int| SENTINEL));
        made
    }

    /// The number of unused slots.
    pub fn size(&self) -> (slots: usize)
        requires
            self.wf(),
        ensures
            slots == self@.gap_len,
    {
        self.end - self.start
    }

    /// The number of unused slots. At 0 the buffer is full, and grows before the
    /// next character goes in.
    pub fn gap_size(&self) -> (slots: usize)
        requires
            self.wf(),
        ensures
            slots == self@.gap_len,
    {
        self.end - self.start
    }

    /// The number of committed characters: the slots outside the gap.
    pub fn char_count(&self) -> (count: usize)
        requires
            self.wf(),
        ensures
            count == self@.text.len(),
            count == self.buffer@.len() - self@.gap_len,
    {
        self.buffer.len() - self.gap_size()
    }

    /// Puts the cursor at `point`. Nothing moves in the storage: the gap
    /// follows when the next character goes in.
    pub fn set_point(&mut self, point: usize)
        requires
            old(self).wf(),
            point <= old(self)@.text.len(),
        ensures
            final(self).wf(),
            final(self)@ == old(self)@.set_point(point as nat),
            *final(self) == (GapBuffer { point: point, ..*old(self) }),
    {
        self.point = point;
    }

    /// Puts `ch` into the text at the cursor. Where the gap has a slot left the
    /// storage keeps its length; a full storage grows first. The cursor stays:
    /// a second character put in at once comes to stand before the first.
    pub fn insert(&mut self, ch: char)
        requires
            old(self).wf(),
            old(self)@.gap_len == 0 ==> grown_len(old(self).buffer@.len()) <= usize::MAX,
        ensures
            final(self).wf(),
            final(self)@ == old(self)@.insert(ch),
            final(self)@.text == old(self)@.text.insert(old(self).point as int, ch),
            final(self).buffer@ == old(self)@.insert(ch).storage(),
            final(self).buffer@.len() == if old(self)@.gap_len == 0 {
                grown_len(old(self).buffer@.len())
            } else {
                old(self).buffer@.len()
            },
    {
        if self.end - self.start == 0 {
            self.extend_buffer();
        }
        self.place_gap();
        self.buffer[self.start] = ch;
        self.start += 1;
        proof {
            assert(self@.text =~= old(self)@.text.insert(old(self).point as int, ch));
            self.lemma_storage();
        }
    }

    /// Moves the gap to the cursor: afterwards the gap starts at the slot whose
    /// index is the cursor's offset. The text, the cursor and the length of the
    /// gap stay as they were, and the gap holds the sentinel again.
    pub fn place_gap(&mut self)
        requires
            old(self).wf(),
        ensures
            final(self).wf(),
            final(self)@ == old(self)@.place_gap(),
            final(self).start == old(self).point,
            final(self)@.text == old(self)@.text,
            final(self).buffer@ == old(self)@.place_gap().storage(),
    {
        if self.point == self.start {
            proof {
                self.lemma_storage();
            }
            return;
        }
        let gap_size: usize = self.end - self.start;
        let backup = self.buffer.clone();
        let point: usize = self.point;
        let start: usize = self.start;
        let end: usize = self.end;
        assert(backup@ =~= self.buffer@);
        if point < start {
            let delta: usize = start - point;
            for i in point..start
                invariant
                    point <= i <= start,
                    point < start <= end <= backup@.len(),
                    gap_size == end - start,
                    self.buffer@.len() == backup@.len(),
                    self.start == start,
                    self.end == end,
                    self.point == point,
                    self.size == old(self).size,
                    forall|j: int| 0 <= j < point + gap_size ==> self.buffer@[j] == backup@[j],
                    forall|j: int|
                        i + gap_size <= j < backup@.len() ==> self.buffer@[j] == backup@[j],
                    forall|j: int|
                        point + gap_size <= j < i + gap_size ==> self.buffer@[j] == backup@[j
                            - gap_size],
            {
                self.buffer[i + gap_size] = backup[i];
            }
            self.start -= delta;
            self.end -= delta;
            for i in point..(end - delta)
                invariant
                    point < start <= end <= backup@.len(),
                    gap_size == end - start,
                    delta == start - point,
                    self.buffer@.len() == backup@.len(),
                    self.start == point,
                    self.end == end - delta,
                    self.point == point,
                    self.size == old(self).size,
                    forall|j: int| 0 <= j < point ==> self.buffer@[j] == backup@[j],
                    forall|j: int| end <= j < backup@.len() ==> self.buffer@[j] == backup@[j],
                    forall|j: int|
                        point + gap_size <= j < end ==> self.buffer@[j] == backup@[j - gap_size],
                    forall|j: int| point <= j < i ==> self.buffer@[j] == SENTINEL,
            {
                self.buffer[i] = SENTINEL;
            }
        } else {
            let delta: usize = point - start;
            for i in start..point
                invariant
                    start <= i <= point,
                    start < point,
                    start <= end,
                    point + gap_size <= backup@.len() <= usize::MAX,
                    gap_size == end - start,
                    self.buffer@.len() == backup@.len(),
                    self.start == start,
                    self.end == end,
                    self.point == point,
                    self.size == old(self).size,
                    forall|j: int| 0 <= j < start ==> self.buffer@[j] == backup@[j],
                    forall|j: int| i <= j < backup@.len() ==> self.buffer@[j] == backup@[j],
                    forall|j: int| start <= j < i ==> self.buffer@[j] == backup@[j + gap_size],
            {
                self.buffer[i] = backup[i + gap_size];
            }
            self.start += delta;
            self.end += delta;
            for i in point..(end + delta)
                invariant
                    start < point,
                    start <= end,
                    point + gap_size <= backup@.len() <= usize::MAX,
                    gap_size == end - start,
                    delta == point - start,
                    self.buffer@.len() == backup@.len(),
                    self.start == point,
                    self.end == end + delta,
                    self.point == point,
                    self.size == old(self).size,
                    forall|j: int| 0 <= j < start ==> self.buffer@[j] == backup@[j],
                    forall|j: int|
                        point + gap_size <= j < backup@.len() ==> self.buffer@[j] == backup@[j],
                    forall|j: int| start <= j < point ==> self.buffer@[j] == backup@[j + gap_size],
                    forall|j: int| point <= j < i ==> self.buffer@[j] == SENTINEL,
            {
                self.buffer[i] = SENTINEL;
            }
        }
        proof {
            assert(self@.text =~= old(self)@.text);
            self.lemma_storage();
        }
    }

    /// Grows a full storage: twice as many slots as before, and one slot where
    /// there was none. The new slots are the gap, which is moved to the cursor.
    /// The text stays as it was, and so does `size`.
    fn extend_buffer(&mut self)
        requires
            old(self).wf(),
            old(self)@.gap_len == 0,
            grown_len(old(self).buffer@.len()) <= usize::MAX,
        ensures
            final(self).wf(),
            final(self)@ == old(self)@.extend(),
            final(self)@.text == old(self)@.text,
            final(self).buffer@.len() == grown_len(old(self).buffer@.len()),
            final(self).buffer@ == old(self)@.extend().storage(),
    {
        let len: usize = self.buffer.len();
        let grown: usize = if len == 0 {
            1
        } else {
            len * 2
        };
        self.buffer.resize(grown, SENTINEL);
        self.start = len;
        self.end = self.buffer.len();
        assert(self@.text =~= old(self)@.text);
        self.place_gap();
    }

    /// Gives the buffer up. Nothing else happens.
    pub fn delete(self) {
    }
}

} // verus!
