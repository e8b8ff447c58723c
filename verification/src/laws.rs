//! What holds of editing, whatever the document and the edits.

use vstd::prelude::*;
use crate::document::{here, sound, OccupantView, Slots};
use crate::editor::{
    after_edits, any_change, assigned, differs, first_refusal, kept_decor, lemma_assigned_sound,
    lemma_same_value_alters_nothing, refusal, EditView,
};
use crate::scalar::{storable, ScalarView};

verus! {

/// Two paths of which neither leads through the other.
pub open spec fn apart(p: Seq<Seq<char>>, q: Seq<Seq<char>>) -> bool {
    !p.is_prefix_of(q) && !q.is_prefix_of(p)
}

/// Two edits that do not fight over a place: their paths are apart, or they
/// assign the same value at the same path.
pub open spec fn compatible(a: EditView, b: EditView) -> bool {
    apart(a.path, b.path) || a == b
}

/// A batch in which every two edits are compatible.
pub open spec fn consistent(edits: Seq<EditView>) -> bool {
    forall|i: int, j: int| 0 <= i < j < edits.len() ==> compatible(edits[i], edits[j])
}

/// An assignment touches nothing off its path: whatever stands at a path
/// that is apart from the assigned one stands there afterwards, and nothing
/// appears where nothing stood.
pub proof fn lemma_assignment_keeps_the_rest(
    m: Slots,
    path: Seq<Seq<char>>,
    value: ScalarView,
    q: Seq<Seq<char>>,
)
    requires
        apart(path, q),
    ensures
        assigned(m, path, value).contains_key(q) == m.contains_key(q),
        m.contains_key(q) ==> assigned(m, path, value)[q] == m[q],
{
}

/// A table that the path of an assignment leads through is still that table
/// afterwards.
pub proof fn lemma_assignment_keeps_the_tables(
    m: Slots,
    path: Seq<Seq<char>>,
    value: ScalarView,
    k: int,
)
    requires
        0 <= k < path.len(),
        m.contains_key(path.take(k)),
    ensures
        assigned(m, path, value).contains_key(path.take(k)),
        assigned(m, path, value)[path.take(k)] == m[path.take(k)],
{
    assert(path.take(k).is_prefix_of(path)) by {
        assert(path.subrange(0, k) =~= path.take(k));
    }
}

/// After an assignment the assigned value stands at the path, and nothing
/// below it.
pub proof fn lemma_assignment_lands(m: Slots, path: Seq<Seq<char>>, value: ScalarView)
    ensures
        assigned(m, path, value).contains_key(path),
        assigned(m, path, value)[path].what == OccupantView::Scalar(value),
        !differs(assigned(m, path, value), path, value),
        forall|q: Seq<Seq<char>>|
            path.is_prefix_of(q) && q != path ==> !(#[trigger] assigned(m, path, value).contains_key(q)),
{
    assert(path.is_prefix_of(path)) by {
        assert(path.subrange(0, path.len() as int) =~= path);
    }
    assert(path.skip(path.len() as int) =~= here());
    assert forall|q: Seq<Seq<char>>| path.is_prefix_of(q) && q != path implies !(#[trigger] assigned(
        m,
        path,
        value,
    ).contains_key(q)) by {
        if q.skip(path.len() as int) == here() {
            assert(q.len() == path.len()) by {
                assert(q.skip(path.len() as int).len() == 0);
            }
            assert(q =~= path);
        }
    }
}

/// An assignment where a value stood keeps the spacing and the comment
/// around it; elsewhere the new value has none of its own.
pub proof fn lemma_assignment_keeps_the_decor(m: Slots, path: Seq<Seq<char>>, value: ScalarView)
    ensures
        assigned(m, path, value)[path].decor == Some(kept_decor(m, path)),
        m.contains_key(path) && m[path].decor is Some ==> assigned(m, path, value)[path].decor == m[path].decor,
{
    assert(path.is_prefix_of(path)) by {
        assert(path.subrange(0, path.len() as int) =~= path);
    }
    assert(path.skip(path.len() as int) =~= here());
}

/// A value that stands at a path stays there through edits that are each
/// compatible with assigning it.
proof fn lemma_value_stays(m: Slots, edits: Seq<EditView>, held: EditView)
    requires
        m.contains_key(held.path),
        m[held.path].what == OccupantView::Scalar(held.value),
        forall|j: int| 0 <= j < edits.len() ==> compatible(held, #[trigger] edits[j]),
    ensures
        after_edits(m, edits).contains_key(held.path),
        after_edits(m, edits)[held.path].what == OccupantView::Scalar(held.value),
    decreases edits.len(),
{
    if edits.len() > 0 {
        let first = edits[0];
        let next = assigned(m, first.path, first.value);
        assert(compatible(held, first));
        if apart(held.path, first.path) {
            lemma_assignment_keeps_the_rest(m, first.path, first.value, held.path);
        } else {
            lemma_assignment_lands(m, first.path, first.value);
        }
        assert forall|j: int| 0 <= j < edits.skip(1).len() implies compatible(
            held,
            #[trigger] edits.skip(1)[j],
        ) by {
            assert(edits.skip(1)[j] == edits[j + 1]);
        }
        lemma_value_stays(next, edits.skip(1), held);
    }
}

/// After a consistent batch, every edit's value stands at the edit's path.
pub proof fn lemma_edits_land(m: Slots, edits: Seq<EditView>, i: int)
    requires
        consistent(edits),
        0 <= i < edits.len(),
    ensures
        after_edits(m, edits).contains_key(edits[i].path),
        after_edits(m, edits)[edits[i].path].what == OccupantView::Scalar(edits[i].value),
    decreases edits.len(),
{
    let first = edits[0];
    let next = assigned(m, first.path, first.value);
    let rest = edits.skip(1);
    if i == 0 {
        lemma_assignment_lands(m, first.path, first.value);
        assert forall|j: int| 0 <= j < rest.len() implies compatible(first, #[trigger] rest[j]) by {
            assert(rest[j] == edits[j + 1]);
        }
        lemma_value_stays(next, rest, first);
    } else {
        assert(consistent(rest)) by {
            assert forall|a: int, b: int| 0 <= a < b < rest.len() implies compatible(rest[a], rest[b]) by {
                assert(rest[a] == edits[a + 1]);
                assert(rest[b] == edits[b + 1]);
            }
        }
        assert(rest[i - 1] == edits[i]);
        lemma_edits_land(next, rest, i - 1);
    }
}

/// After a batch, whatever stands at a path that is apart from every edit's
/// path is what stood there before.
pub proof fn lemma_edits_keep_the_rest(m: Slots, edits: Seq<EditView>, q: Seq<Seq<char>>)
    requires
        forall|i: int| 0 <= i < edits.len() ==> apart((#[trigger] edits[i]).path, q),
    ensures
        after_edits(m, edits).contains_key(q) == m.contains_key(q),
        m.contains_key(q) ==> after_edits(m, edits)[q] == m[q],
    decreases edits.len(),
{
    if edits.len() > 0 {
        let first = edits[0];
        lemma_assignment_keeps_the_rest(m, first.path, first.value, q);
        assert forall|i: int| 0 <= i < edits.skip(1).len() implies apart(
            (#[trigger] edits.skip(1)[i]).path,
            q,
        ) by {
            assert(edits.skip(1)[i] == edits[i + 1]);
        }
        lemma_edits_keep_the_rest(assigned(m, first.path, first.value), edits.skip(1), q);
    }
}

/// A batch that was applied in full left the slots sound, and each of its
/// edits names a key and holds a storable value.
pub proof fn lemma_applied_batch(m: Slots, edits: Seq<EditView>)
    requires
        sound(m),
        first_refusal(m, edits) is None,
    ensures
        sound(after_edits(m, edits)),
        forall|i: int| 0 <= i < edits.len() ==> (#[trigger] edits[i]).path.len() > 0 && storable(edits[i].value),
    decreases edits.len(),
{
    if edits.len() > 0 {
        let first = edits[0];
        let next = assigned(m, first.path, first.value);
        assert(refusal(m, first) is None);
        lemma_assigned_sound(m, first.path, first.value);
        lemma_applied_batch(next, edits.skip(1));
        assert forall|i: int| 0 <= i < edits.len() implies (#[trigger] edits[i]).path.len() > 0 && storable(
            edits[i].value,
        ) by {
            if i > 0 {
                assert(edits[i] == edits.skip(1)[i - 1]);
            }
        }
    }
}

/// Edits whose values all stand at their paths already can be applied, and
/// alter nothing.
proof fn lemma_nothing_to_do(m: Slots, edits: Seq<EditView>)
    requires
        sound(m),
        forall|i: int|
            0 <= i < edits.len() ==> {
                &&& (#[trigger] edits[i]).path.len() > 0
                &&& storable(edits[i].value)
                &&& m.contains_key(edits[i].path)
                &&& m[edits[i].path].what == OccupantView::Scalar(edits[i].value)
            },
    ensures
        first_refusal(m, edits) is None,
        after_edits(m, edits) == m,
        !any_change(m, edits),
    decreases edits.len(),
{
    if edits.len() > 0 {
        let first = edits[0];
        lemma_same_value_alters_nothing(m, first.path, first.value);
        assert forall|i: int| 0 <= i < edits.skip(1).len() implies {
            &&& (#[trigger] edits.skip(1)[i]).path.len() > 0
            &&& storable(edits.skip(1)[i].value)
            &&& m.contains_key(edits.skip(1)[i].path)
            &&& m[edits.skip(1)[i].path].what == OccupantView::Scalar(edits.skip(1)[i].value)
        } by {
            assert(edits.skip(1)[i] == edits[i + 1]);
        }
        lemma_nothing_to_do(m, edits.skip(1));
    }
}

/// Applying a consistent batch a second time can be done, changes no value
/// and leaves the slots as the first application left them.
pub proof fn lemma_second_application_changes_nothing(m: Slots, edits: Seq<EditView>)
    requires
        sound(m),
        consistent(edits),
        first_refusal(m, edits) is None,
    ensures
        first_refusal(after_edits(m, edits), edits) is None,
        after_edits(after_edits(m, edits), edits) == after_edits(m, edits),
        !any_change(after_edits(m, edits), edits),
{
    let once = after_edits(m, edits);
    lemma_applied_batch(m, edits);
    assert forall|i: int| 0 <= i < edits.len() implies {
        &&& (#[trigger] edits[i]).path.len() > 0
        &&& storable(edits[i].value)
        &&& once.contains_key(edits[i].path)
        &&& once[edits[i].path].what == OccupantView::Scalar(edits[i].value)
    } by {
        lemma_edits_land(m, edits, i);
    }
    lemma_nothing_to_do(once, edits);
}

} // verus!
