//! What holds of a gap buffer through every run of edits.

use crate::model::{grown_len, insertions, text_of, Edit, Model, SENTINEL};
use vstd::prelude::*;

verus! {

/// The storage of a buffer holds its text before and behind the gap, and the
/// sentinel in every slot of the gap, which lies within the storage. With the
/// gap cut out, the storage reads as the text.
pub proof fn lemma_storage_shape(m: Model)
    requires
        m.inv(),
    ensures
        m.storage().len() == m.text.len() + m.gap_len,
        0 <= m.gap_at <= m.gap_at + m.gap_len <= m.storage().len(),
        forall|i: int| 0 <= i < m.gap_at ==> m.storage()[i] == m.text[i],
        forall|i: int| m.gap_at <= i < m.gap_at + m.gap_len ==> m.storage()[i] == SENTINEL,
        forall|i: int|
            m.gap_at + m.gap_len <= i < m.storage().len() ==> m.storage()[i] == m.text[i
                - m.gap_len],
        text_of(m.storage(), m.gap_at, m.gap_at + m.gap_len) == m.text,
{
    assert(text_of(m.storage(), m.gap_at, m.gap_at + m.gap_len) =~= m.text);
}

/// An edit that a buffer admits leaves gap and cursor within the text.
pub proof fn lemma_edit_keeps_invariant(m: Model, edit: Edit)
    requires
        m.inv(),
        m.admits(edit),
    ensures
        m.apply(edit).inv(),
{
}

/// After any run of edits, each admitted where it was made, gap and cursor lie
/// within the text, the gap lies within the storage, and every slot of the gap
/// holds the sentinel.
pub proof fn lemma_run_keeps_invariant(m: Model, edits: Seq<Edit>)
    requires
        m.inv(),
        m.admits_all(edits),
    ensures
        m.run(edits).inv(),
        0 <= m.run(edits).gap_at <= m.run(edits).gap_at + m.run(edits).gap_len <= m.run(
            edits,
        ).storage().len(),
        forall|i: int|
            m.run(edits).gap_at <= i < m.run(edits).gap_at + m.run(edits).gap_len ==> m.run(
                edits,
            ).storage()[i] == SENTINEL,
    decreases edits.len(),
{
    if edits.len() > 0 {
        let before = edits.drop_last();
        assert forall|k: int| 0 <= k < before.len() implies #[trigger] m.run(
            before.take(k),
        ).admits(before[k]) by {
            assert(before.take(k) =~= edits.take(k));
        }
        lemma_run_keeps_invariant(m, before);
        assert(edits.take(edits.len() - 1) =~= before);
        lemma_edit_keeps_invariant(m.run(before), edits.last());
    }
    lemma_storage_shape(m.run(edits));
}

/// After any run of edits, each admitted where it was made, the text is as
/// much longer as characters were put in: nothing else changes its length.
pub proof fn lemma_run_counts_insertions(m: Model, edits: Seq<Edit>)
    requires
        m.inv(),
        m.admits_all(edits),
    ensures
        m.run(edits).text.len() == m.text.len() + insertions(edits),
    decreases edits.len(),
{
    reveal(Seq::filter);
    if edits.len() > 0 {
        let before = edits.drop_last();
        assert forall|k: int| 0 <= k < before.len() implies #[trigger] m.run(
            before.take(k),
        ).admits(before[k]) by {
            assert(before.take(k) =~= edits.take(k));
        }
        lemma_run_counts_insertions(m, before);
        lemma_run_keeps_invariant(m, before);
    }
}

/// A buffer made empty holds, after any run of edits, as many characters as
/// were put in.
pub proof fn lemma_fresh_counts_insertions(capacity: nat, edits: Seq<Edit>)
    requires
        Model::empty(capacity).admits_all(edits),
    ensures
        Model::empty(capacity).run(edits).text.len() == insertions(edits),
{
    lemma_run_counts_insertions(Model::empty(capacity), edits);
}

/// A character put in stands at the cursor, and the characters that were
/// there stay, in their order: the new one taken out again leaves the old
/// text. The storage keeps its length where the gap had room, and has grown
/// where it had none.
pub proof fn lemma_insert_keeps_text(m: Model, ch: char)
    requires
        m.inv(),
    ensures
        m.insert(ch).inv(),
        m.insert(ch).text[m.point as int] == ch,
        m.insert(ch).text.remove(m.point as int) == m.text,
        m.insert(ch).storage().len() == if m.gap_len == 0 {
            grown_len(m.storage().len())
        } else {
            m.storage().len()
        },
{
    lemma_storage_shape(m);
    lemma_storage_shape(m.insert(ch));
    assert(m.insert(ch).text.remove(m.point as int) =~= m.text);
}

/// A character put into a full buffer, one whose gap is used up, doubles the
/// storage, and the characters that were there stay, in their order.
pub proof fn lemma_full_insert_doubles(m: Model, ch: char)
    requires
        m.inv(),
        m.gap_len == 0,
        m.text.len() > 0,
    ensures
        m.insert(ch).storage().len() == 2 * m.storage().len(),
        m.insert(ch).text.remove(m.point as int) == m.text,
{
    lemma_storage_shape(m);
    lemma_insert_keeps_text(m, ch);
}

/// Wherever gap and cursor stand, once the gap is placed it starts at the
/// slot whose index is the cursor's offset, and the storage before and behind
/// it reads as the text did.
pub proof fn lemma_place_gap_keeps_text(m: Model)
    requires
        m.inv(),
    ensures
        m.place_gap().inv(),
        m.place_gap().gap_at == m.point,
        m.place_gap().gap_len == m.gap_len,
        m.place_gap().storage().len() == m.storage().len(),
        text_of(m.place_gap().storage(), m.point, m.point + m.gap_len) == m.text,
{
    lemma_storage_shape(m);
    lemma_storage_shape(m.place_gap());
}

} // verus!
