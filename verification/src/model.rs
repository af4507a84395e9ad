//! The mathematical model of a gap buffer.
//!
//! A buffer is its text, the offset of its cursor, and the place and length of
//! its gap. The slots of the storage follow from these: the text with the gap
//! opened inside it.

use vstd::prelude::*;

verus! {

/// What every slot of the gap holds.
pub const SENTINEL: char = '\0';

/// The number of slots of a full storage of `len` slots once it has grown:
/// twice as many, and one slot where there was none.
pub open spec fn grown_len(len: nat) -> nat {
    if len == 0 {
        1
    } else {
        2 * len
    }
}

/// The slots that hold `text` with a gap of `gap_len` slots opened before the
/// character at offset `gap_at`.
pub open spec fn storage_of(text: Seq<char>, gap_at: nat, gap_len: nat) -> Seq<char> {
    text.subrange(0, gap_at as int) + Seq::new(gap_len, |i: int| SENTINEL) + text.subrange(
        gap_at as int,
        text.len() as int,
    )
}

/// What `storage` reads as with the slots from `gap_start` up to `gap_end` cut
/// out of it.
pub open spec fn text_of(storage: Seq<char>, gap_start: nat, gap_end: nat) -> Seq<char> {
    storage.subrange(0, gap_start as int) + storage.subrange(
        gap_end as int,
        storage.len() as int,
    )
}

/// One call that changes a buffer.
pub enum Edit {
    /// A character goes in at the cursor.
    Insert(char),
    /// The cursor goes to an offset in the text.
    SetPoint(nat),
    /// The gap goes to the cursor.
    PlaceGap,
}

/// How many of `edits` put a character in.
pub open spec fn insertions(edits: Seq<Edit>) -> nat {
    edits.filter(|edit: Edit| edit is Insert).len()
}

/// A gap buffer as plain data.
pub struct Model {
    /// The committed characters, in reading order.
    pub text: Seq<char>,
    /// The cursor: the offset in `text` at which the next character goes in.
    pub point: nat,
    /// The offset in `text` before which the gap lies.
    pub gap_at: nat,
    /// The number of unused slots.
    pub gap_len: nat,
    /// The capacity that the buffer was made with; growth leaves it as it was.
    pub declared: nat,
}

impl Model {
    /// Gap and cursor lie within the text.
    pub open spec fn inv(self) -> bool {
        &&& self.gap_at <= self.text.len()
        &&& self.point <= self.text.len()
    }

    /// The slots of the storage, gap included.
    pub open spec fn storage(self) -> Seq<char> {
        storage_of(self.text, self.gap_at, self.gap_len)
    }

    /// A buffer without text whose gap has `capacity` slots.
    pub open spec fn empty(capacity: nat) -> Model {
        Model { text: Seq::empty(), point: 0, gap_at: 0, gap_len: capacity, declared: capacity }
    }

    /// The same buffer with its cursor at `position`.
    pub open spec fn set_point(self, position: nat) -> Model
        recommends
            position <= self.text.len(),
    {
        Model { point: position, ..self }
    }

    /// The same buffer with its gap at the cursor.
    pub open spec fn place_gap(self) -> Model {
        Model { gap_at: self.point, ..self }
    }

    /// A full buffer after growing: the new slots are its gap, at the cursor.
    pub open spec fn extend(self) -> Model
        recommends
            self.gap_len == 0,
    {
        Model {
            gap_at: self.point,
            gap_len: (grown_len(self.text.len()) - self.text.len()) as nat,
            ..self
        }
    }

    /// The buffer after `ch` went in at the cursor: the gap starts behind the
    /// new character and has one slot less; a full buffer grows first. The
    /// cursor stays where it was.
    pub open spec fn insert(self, ch: char) -> Model {
        let roomy = if self.gap_len == 0 {
            self.extend()
        } else {
            self
        };
        Model {
            text: self.text.insert(self.point as int, ch),
            gap_at: self.point + 1,
            gap_len: (roomy.gap_len - 1) as nat,
            ..self
        }
    }

    /// Whether `edit` may be made on this buffer: the cursor may not leave the
    /// text.
    pub open spec fn admits(self, edit: Edit) -> bool {
        match edit {
            Edit::SetPoint(position) => position <= self.text.len(),
            _ => true,
        }
    }

    /// The buffer after `edit`.
    pub open spec fn apply(self, edit: Edit) -> Model {
        match edit {
            Edit::Insert(ch) => self.insert(ch),
            Edit::SetPoint(position) => self.set_point(position),
            Edit::PlaceGap => self.place_gap(),
        }
    }

    /// The buffer after all of `edits`, first to last.
    pub open spec fn run(self, edits: Seq<Edit>) -> Model
        decreases edits.len(),
    {
        if edits.len() == 0 {
            self
        } else {
            self.run(edits.drop_last()).apply(edits.last())
        }
    }

    /// Each of `edits` may be made on the buffer that the edits before it
    /// leave.
    pub open spec fn admits_all(self, edits: Seq<Edit>) -> bool {
        forall|k: int|
            0 <= k < edits.len() ==> #[trigger] self.run(edits.take(k)).admits(edits[k])
    }
}

} // verus!
