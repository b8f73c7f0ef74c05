//! The display order of windows: by workspace index, then by column, then by
//! index within the column, then by window identifier.
use vstd::prelude::*;

verus! {

/// What a window is ordered by.
#[derive(Debug, Clone, Copy)]
pub struct SortKey {
    /// Index of the workspace that holds the window.
    pub workspace_idx: u8,
    pub column: usize,
    pub row: usize,
    pub id: u64,
}

impl SortKey {
    /// Whether `self` is displayed before `other`.
    pub open spec fn precedes(self, other: SortKey) -> bool {
        ||| self.workspace_idx < other.workspace_idx
        ||| (self.workspace_idx == other.workspace_idx && self.column < other.column)
        ||| (self.workspace_idx == other.workspace_idx && self.column == other.column && self.row
            < other.row)
        ||| (self.workspace_idx == other.workspace_idx && self.column == other.column && self.row
            == other.row && self.id < other.id)
    }

    /// Decides [`SortKey::precedes`].
    pub fn before(&self, other: &SortKey) -> (first: bool)
        ensures
            first == self.precedes(*other),
    {
        if self.workspace_idx != other.workspace_idx {
            self.workspace_idx < other.workspace_idx
        } else if self.column != other.column {
            self.column < other.column
        } else if self.row != other.row {
            self.row < other.row
        } else {
            self.id < other.id
        }
    }
}

/// Whether each key of `keys` precedes all that follow it.
pub open spec fn strictly_ordered(keys: Seq<SortKey>) -> bool {
    forall|i: int, j: int| 0 <= i < j < keys.len() ==> (#[trigger] keys[i]).precedes(#[trigger] keys[j])
}

/// No key precedes itself.
pub proof fn lemma_precedes_irreflexive(a: SortKey)
    ensures
        !a.precedes(a),
{
}

/// Of two keys at most one precedes the other.
pub proof fn lemma_precedes_asymmetric(a: SortKey, b: SortKey)
    ensures
        !(a.precedes(b) && b.precedes(a)),
{
}

/// What precedes a key precedes all that the key precedes.
pub proof fn lemma_precedes_transitive(a: SortKey, b: SortKey, c: SortKey)
    requires
        a.precedes(b),
        b.precedes(c),
    ensures
        a.precedes(c),
{
}

/// The order is total on windows that differ in their identifier: exactly one
/// of two such keys precedes the other.
pub proof fn lemma_precedes_total(a: SortKey, b: SortKey)
    requires
        a.id != b.id,
    ensures
        a.precedes(b) != b.precedes(a),
{
}

/// Two keys of which neither precedes the other are the same key.
pub proof fn lemma_precedes_ties_are_equal(a: SortKey, b: SortKey)
    requires
        !a.precedes(b),
        !b.precedes(a),
    ensures
        a == b,
{
}

/// Two strictly ordered sequences that hold the same keys are the same
/// sequence.
pub proof fn lemma_strictly_ordered_unique(a: Seq<SortKey>, b: Seq<SortKey>)
    requires
        strictly_ordered(a),
        strictly_ordered(b),
        forall|k: SortKey| a.contains(k) <==> b.contains(k),
    ensures
        a == b,
    decreases a.len(),
{
    if a.len() == 0 {
        if b.len() > 0 {
            assert(b.contains(b[0]));
        }
        assert(a =~= b);
    } else if b.len() == 0 {
        assert(a.contains(a[0]));
    } else {
        // The first key of each occurs in the other, and nothing precedes a
        // first key.
        assert(a.contains(a[0]));
        assert(b.contains(b[0]));
        let i = choose|i: int| 0 <= i < b.len() && b[i] == a[0];
        let j = choose|j: int| 0 <= j < a.len() && a[j] == b[0];
        if i > 0 {
            assert(b[0].precedes(b[i]));
            if j > 0 {
                assert(a[0].precedes(a[j]));
            }
        }
        assert(a[0] == b[0]);
        let ta = a.drop_first();
        let tb = b.drop_first();
        assert forall|k: SortKey| ta.contains(k) <==> tb.contains(k) by {
            if ta.contains(k) {
                let x = choose|x: int| 0 <= x < ta.len() && ta[x] == k;
                assert(a[x + 1] == k);
                assert(a[0].precedes(a[x + 1]));
                assert(a.contains(k));
                let y = choose|y: int| 0 <= y < b.len() && b[y] == k;
                assert(y != 0);
                assert(tb[y - 1] == k);
            }
            if tb.contains(k) {
                let x = choose|x: int| 0 <= x < tb.len() && tb[x] == k;
                assert(b[x + 1] == k);
                assert(b[0].precedes(b[x + 1]));
                assert(b.contains(k));
                let y = choose|y: int| 0 <= y < a.len() && a[y] == k;
                assert(y != 0);
                assert(ta[y - 1] == k);
            }
        }
        assert(strictly_ordered(ta)) by {
            assert forall|x: int, y: int| 0 <= x < y < ta.len() implies (#[trigger] ta[x]).precedes(
                #[trigger] ta[y],
            ) by {
                assert(a[x + 1].precedes(a[y + 1]));
            }
        }
        assert(strictly_ordered(tb)) by {
            assert forall|x: int, y: int| 0 <= x < y < tb.len() implies (#[trigger] tb[x]).precedes(
                #[trigger] tb[y],
            ) by {
                assert(b[x + 1].precedes(b[y + 1]));
            }
        }
        lemma_strictly_ordered_unique(ta, tb);
        assert(a =~= seq![a[0]] + ta);
        assert(b =~= seq![b[0]] + tb);
    }
}

} // verus!
