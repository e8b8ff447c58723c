//! Applying edits to a document.

use vstd::prelude::*;
use crate::document::{
    above, below, child_mut, copy_toml, decor_of, doc_slots, fresh_table, here, item_slots, lone, occupant,
    open_to_keys, plain, put_value, root_mut, sound, with_decor, DecorView, Document, Occupant, OccupantView,
    Slots,
};
use crate::scalar::{storable, value_scalar, Scalar, ScalarView};

verus! {

/// One assignment: the keys that lead to the place, and the value to put there.
#[derive(Debug, PartialEq, Eq)]
pub struct Edit {
    pub key_path: Vec<String>,
    pub new_value: Scalar,
}

/// The mathematical value of an [`Edit`].
pub struct EditView {
    pub path: Seq<Seq<char>>,
    pub value: ScalarView,
}

impl View for Edit {
    type V = EditView;

    open spec fn view(&self) -> EditView {
        EditView { path: self.key_path.deep_view(), value: self.new_value@ }
    }
}

/// Why an edit cannot be applied.
#[derive(Debug, Clone, Copy, PartialEq, Eq, Structural)]
pub enum EditError {
    /// The edit names no key.
    EmptyPath,
    /// The value holds a float text that prints no float.
    Unstorable,
    /// A step of the path before the last holds something that is no table.
    Blocked,
}

/// The part of `m` under `path`, seen from there.
pub open spec fn under(m: Slots, path: Seq<Seq<char>>) -> Slots {
    Map::new(|r: Seq<Seq<char>>| m.contains_key(path + r), |r: Seq<Seq<char>>| m[path + r])
}

/// `m` with the part under `path` replaced by `c`. Each step of the path
/// stays the table it was, or becomes an inline table where there was
/// nothing; everything off the path stays.
pub open spec fn grafted(m: Slots, path: Seq<Seq<char>>, c: Slots) -> Slots {
    Map::new(
        |q: Seq<Seq<char>>|
            if q.len() < path.len() && q.is_prefix_of(path) {
                true
            } else if path.is_prefix_of(q) {
                c.contains_key(q.skip(path.len() as int))
            } else {
                m.contains_key(q)
            },
        |q: Seq<Seq<char>>|
            if q.len() < path.len() && q.is_prefix_of(path) {
                if m.contains_key(q) {
                    m[q]
                } else {
                    fresh_table()
                }
            } else if path.is_prefix_of(q) {
                c[q.skip(path.len() as int)]
            } else {
                m[q]
            },
    )
}

/// Whether `path` can be walked in `m`: whatever stands at a step before the
/// last is a table or an inline table.
pub open spec fn passable(m: Slots, path: Seq<Seq<char>>) -> bool {
    forall|k: int| 0 <= k < path.len() && m.contains_key(#[trigger] path.take(k)) ==> m[path.take(k)].holds_keys()
}

/// The decor that a value assigned at `path` gets: that of the value that
/// stands there, so that the spacing and the comment around it stay; none
/// of its own where no value stands there.
pub open spec fn kept_decor(m: Slots, path: Seq<Seq<char>>) -> DecorView {
    if m.contains_key(path) && m[path].decor is Some {
        m[path].decor->0
    } else {
        plain()
    }
}

/// The slots after `value` is assigned at `path`.
pub open spec fn assigned(m: Slots, path: Seq<Seq<char>>, value: ScalarView) -> Slots {
    grafted(m, path, lone(value, kept_decor(m, path)))
}

/// Whether assigning `value` at `path` puts there anything but what stands
/// there already.
pub open spec fn differs(m: Slots, path: Seq<Seq<char>>, value: ScalarView) -> bool {
    !(m.contains_key(path) && m[path].what == OccupantView::Scalar(value))
}

/// Why `edit` cannot be applied to `m`, if it cannot.
pub open spec fn refusal(m: Slots, edit: EditView) -> Option<EditError> {
    if edit.path.len() == 0 {
        Some(EditError::EmptyPath)
    } else if !storable(edit.value) {
        Some(EditError::Unstorable)
    } else if !passable(m, edit.path) {
        Some(EditError::Blocked)
    } else {
        None
    }
}

/// The first of `edits` that cannot be applied when they are applied in
/// order, with the reason.
pub open spec fn first_refusal(m: Slots, edits: Seq<EditView>) -> Option<(int, EditError)>
    decreases edits.len(),
{
    if edits.len() == 0 {
        None
    } else {
        match refusal(m, edits[0]) {
            Some(e) => Some((0, e)),
            None => match first_refusal(assigned(m, edits[0].path, edits[0].value), edits.skip(1)) {
                Some((i, e)) => Some((i + 1, e)),
                None => None,
            },
        }
    }
}

/// The slots after `edits` are applied in order.
pub open spec fn after_edits(m: Slots, edits: Seq<EditView>) -> Slots
    decreases edits.len(),
{
    if edits.len() == 0 {
        m
    } else {
        after_edits(assigned(m, edits[0].path, edits[0].value), edits.skip(1))
    }
}

/// Whether one of `edits`, applied in order, changes the value at its path.
pub open spec fn any_change(m: Slots, edits: Seq<EditView>) -> bool
    decreases edits.len(),
{
    if edits.len() == 0 {
        false
    } else {
        differs(m, edits[0].path, edits[0].value) || any_change(
            assigned(m, edits[0].path, edits[0].value),
            edits.skip(1),
        )
    }
}

/// The views of `edits`, in order.
pub open spec fn edit_views(edits: Seq<Edit>) -> Seq<EditView> {
    Seq::new(edits.len(), |i: int| edits[i]@)
}

/// An assignment that can be made keeps the slots sound.
pub proof fn lemma_assigned_sound(m: Slots, path: Seq<Seq<char>>, value: ScalarView)
    requires
        sound(m),
        path.len() > 0,
        passable(m, path),
    ensures
        sound(assigned(m, path, value)),
{
    let n = assigned(m, path, value);
    assert(here().is_prefix_of(path)) by {
        assert(path.subrange(0, 0) =~= here());
    }
    assert forall|q: Seq<Seq<char>>, k: int| n.contains_key(q) && 0 <= k < q.len() implies n.contains_key(
        #[trigger] q.take(k),
    ) && n[q.take(k)].holds_keys() by {
        let t = q.take(k);
        if q.len() < path.len() && q.is_prefix_of(path) {
            assert(t.is_prefix_of(path)) by {
                assert(path.subrange(0, k) =~= q.subrange(0, q.len() as int).subrange(0, k));
            }
            assert(t =~= path.take(k));
        } else if path.is_prefix_of(q) {
            assert(q.skip(path.len() as int) == here());
            assert(q =~= path) by {
                assert(q.len() == path.len()) by {
                    assert(q.skip(path.len() as int).len() == 0);
                }
            }
            assert(t =~= path.take(k));
            assert(t.is_prefix_of(path)) by {
                assert(path.subrange(0, k) =~= t);
            }
        } else {
            assert(m.contains_key(t) && m[t].holds_keys());
            if t.len() < path.len() && t.is_prefix_of(path) {
            } else if path.is_prefix_of(t) {
                assert(path.is_prefix_of(q)) by {
                    assert(q.subrange(0, path.len() as int) =~= t.subrange(0, path.len() as int));
                }
            } else {
            }
        }
    }
}

/// In sound slots, assigning the value that already stands at a path can be
/// done and alters nothing.
pub proof fn lemma_same_value_alters_nothing(m: Slots, path: Seq<Seq<char>>, value: ScalarView)
    requires
        sound(m),
        path.len() > 0,
        m.contains_key(path),
        m[path].what == OccupantView::Scalar(value),
    ensures
        passable(m, path),
        assigned(m, path, value) == m,
        !differs(m, path, value),
{
    let n = assigned(m, path, value);
    assert forall|q: Seq<Seq<char>>|
        (#[trigger] n.dom().contains(q)) == m.dom().contains(q) && (n.dom().contains(q) ==> n[q] == m[q]) by {
        if q.len() < path.len() && q.is_prefix_of(path) {
            assert(q =~= path.take(q.len() as int));
        } else if path.is_prefix_of(q) {
            if q.skip(path.len() as int) == here() {
                assert(q.len() == path.len()) by {
                    assert(q.skip(path.len() as int).len() == 0);
                }
                assert(q =~= path);
            } else {
                assert(q.len() > path.len()) by {
                    if q.len() == path.len() {
                        assert(q.skip(path.len() as int) =~= here());
                    }
                }
                if m.contains_key(q) {
                    assert(q.take(path.len() as int) =~= path);
                    assert(m[q.take(path.len() as int)].holds_keys());
                }
            }
        } else {
        }
    }
    assert(n =~= m);
}

proof fn lemma_graft_step(m: Slots, path: Seq<Seq<char>>, key: Seq<char>, c: Slots)
    ensures
        grafted(m, path, above(under(m, path), key, c)) == grafted(m, path.push(key), c),
{
    let l = grafted(m, path, above(under(m, path), key, c));
    let r = grafted(m, path.push(key), c);
    let longer = path.push(key);
    assert forall|q: Seq<Seq<char>>|
        (#[trigger] l.dom().contains(q)) == r.dom().contains(q) && (l.dom().contains(q) ==> l[q] == r[q]) by {
        if q.len() < path.len() && q.is_prefix_of(path) {
            assert(q.is_prefix_of(longer)) by {
                assert(longer.subrange(0, q.len() as int) =~= path.subrange(0, q.len() as int));
            }
        } else if path.is_prefix_of(q) {
            let rest = q.skip(path.len() as int);
            assert(path + rest =~= q);
            if rest.len() == 0 {
                assert(q =~= path);
                assert(q.is_prefix_of(longer)) by {
                    assert(longer.subrange(0, q.len() as int) =~= q);
                }
                assert(path + here() =~= path);
            } else if rest[0] == key {
                assert(longer.is_prefix_of(q)) by {
                    assert(q.subrange(0, longer.len() as int) =~= longer);
                }
                assert(rest.skip(1) =~= q.skip(longer.len() as int));
            } else {
                assert(!longer.is_prefix_of(q)) by {
                    if longer.is_prefix_of(q) {
                        assert(q.subrange(0, longer.len() as int)[path.len() as int] == key);
                    }
                }
                assert(!(q.len() < longer.len() && q.is_prefix_of(longer)));
            }
        } else {
            assert(!longer.is_prefix_of(q)) by {
                if longer.is_prefix_of(q) {
                    assert(q.subrange(0, path.len() as int) =~= longer.subrange(0, longer.len() as int).subrange(0, path.len() as int));
                    assert(longer.subrange(0, path.len() as int) =~= path);
                }
            }
            assert(!(q.len() < longer.len() && q.is_prefix_of(longer))) by {
                if q.len() < longer.len() && q.is_prefix_of(longer) {
                    if q.len() == path.len() {
                        assert(longer.subrange(0, q.len() as int) =~= path);
                    } else {
                        assert(longer.subrange(0, q.len() as int) =~= path.subrange(0, q.len() as int));
                    }
                }
            }
        }
    }
    assert(l =~= r);
}

proof fn lemma_under_step(m: Slots, path: Seq<Seq<char>>, key: Seq<char>)
    ensures
        below(under(m, path), key) == under(m, path.push(key)),
{
    assert forall|r: Seq<Seq<char>>| path + (seq![key] + r) == #[trigger] (path.push(key) + r) by {
        assert(path + (seq![key] + r) =~= path.push(key) + r);
    }
    assert(below(under(m, path), key) =~= under(m, path.push(key)));
}

/// Walks `path` from the root, making tables where there are none, and puts
/// `value` at its end. Hands back what stood there before, or fails where a
/// step before the last holds something that is no table.
fn assign(doc: &mut toml_edit::DocumentMut, path: &Vec<String>, value: toml_edit::Value) -> (r: Result<
    Option<Occupant>,
    EditError,
>)
    requires
        path.len() > 0,
        value_scalar(value) is Some,
    ensures
        match r {
            Ok(previous) => {
                &&& passable(doc_slots(*old(doc)), path.deep_view())
                &&& doc_slots(*final(doc)) == grafted(
                    doc_slots(*old(doc)),
                    path.deep_view(),
                    lone(value_scalar(value)->0, kept_decor(doc_slots(*old(doc)), path.deep_view())),
                )
                &&& match previous {
                    Some(o) => doc_slots(*old(doc)).contains_key(path.deep_view()) && doc_slots(
                        *old(doc),
                    )[path.deep_view()].what == o@,
                    None => !doc_slots(*old(doc)).contains_key(path.deep_view()),
                }
            },
            Err(e) => e == EditError::Blocked && !passable(doc_slots(*old(doc)), path.deep_view()),
        },
{
    let ghost m0 = doc_slots(*doc);
    let ghost full = path.deep_view();
    let ghost end = doc_slots(*final(doc));
    let mut cur = root_mut(doc);
    let mut i: usize = 0;
    proof {
        assert(full.take(0) =~= here());
        assert(under(m0, here()) =~= m0) by {
            assert forall|r: Seq<Seq<char>>| here() + r == r by {
                assert(here() + r =~= r);
            }
        }
        assert forall|c: Slots| grafted(m0, here(), c) == c by {
            assert forall|q: Seq<Seq<char>>| q.skip(0) == q by {
                assert(q.skip(0) =~= q);
            }
            assert(grafted(m0, here(), c) =~= c);
        }
    }
    while i < path.len()
        invariant
            i <= path.len(),
            full == path.deep_view(),
            m0 == doc_slots(*old(doc)),
            item_slots(*cur) == under(m0, full.take(i as int)),
            end == grafted(m0, full.take(i as int), item_slots(*final(cur))),
            forall|k: int| 0 <= k < i && m0.contains_key(#[trigger] full.take(k)) ==> m0[full.take(k)].holds_keys(),
        decreases path.len() - i,
    {
        let ghost prefix = full.take(i as int);
        proof {
            assert(prefix + here() =~= prefix);
        }
        let open = match occupant(cur) {
            Some(Occupant::Table) => true,
            Some(Occupant::InlineTable) => true,
            Some(_) => false,
            None => true,
        };
        assert(open == open_to_keys(item_slots(*cur)));
        if !open {
            proof {
                assert(under(m0, prefix).contains_key(here()));
                assert(m0.contains_key(prefix));
                assert(!m0[prefix].holds_keys());
            }
            return Err(EditError::Blocked);
        }
        let ghost before = item_slots(*cur);
        cur = child_mut(cur, path[i].as_str());
        proof {
            assert(full[i as int] == path[i as int]@);
            assert(prefix.push(full[i as int]) =~= full.take(i + 1));
            lemma_under_step(m0, prefix, full[i as int]);
            lemma_graft_step(m0, prefix, full[i as int], item_slots(*final(cur)));
        }
        i = i + 1;
    }
    proof {
        assert(full.take(path.len() as int) =~= full);
        assert(full + here() =~= full);
    }
    let previous = occupant(cur);
    let decor = decor_of(cur);
    put_value(cur, with_decor(value, decor));
    Ok(previous)
}

impl Document {
    /// Applies one edit: walks the path, making inline tables where a step
    /// is missing, and puts the value at its end in place of whatever stood
    /// there, within the spacing and comment of a value that stood there.
    /// Tells whether the value there is now another than before. An edit
    /// that cannot be applied leaves the document as it was, and so does one
    /// whose value stands at its path already.
    pub fn apply_edit(&mut self, edit: &Edit) -> (r: Result<bool, EditError>)
        ensures
            match r {
                Ok(changed) => {
                    &&& refusal(old(self).slots(), edit@) is None
                    &&& final(self).slots() == assigned(old(self).slots(), edit@.path, edit@.value)
                    &&& changed == differs(old(self).slots(), edit@.path, edit@.value)
                    &&& !changed ==> *final(self) == *old(self)
                },
                Err(e) => refusal(old(self).slots(), edit@) == Some(e) && *final(self) == *old(self),
            },
    {
        proof {
            use_type_invariant(&*self);
        }
        if edit.key_path.len() == 0 {
            return Err(EditError::EmptyPath);
        }
        let value = match edit.new_value.to_value() {
            Some(value) => value,
            None => {
                return Err(EditError::Unstorable);
            },
        };
        let mut work = copy_toml(&self.doc);
        match assign(&mut work, &edit.key_path, value) {
            Ok(previous) => {
                let changed = match previous {
                    Some(Occupant::Scalar(p)) => !p.same_as(&edit.new_value),
                    _ => true,
                };
                if changed {
                    proof {
                        lemma_assigned_sound(doc_slots(self.doc), edit@.path, edit@.value);
                    }
                    self.doc = work;
                } else {
                    proof {
                        lemma_same_value_alters_nothing(doc_slots(self.doc), edit@.path, edit@.value);
                    }
                }
                Ok(changed)
            },
            Err(e) => Err(e),
        }
    }

    /// Applies `edits` in order, all of them or none: where one of them
    /// cannot be applied, the document stays as it was and the result names
    /// the edit and the reason. Otherwise tells whether any of them changed
    /// the value at its path; where none did, the document stays as it was.
    pub fn apply_edits(&mut self, edits: &Vec<Edit>) -> (r: Result<bool, (usize, EditError)>)
        ensures
            match r {
                Ok(changed) => {
                    &&& first_refusal(old(self).slots(), edit_views(edits@)) is None
                    &&& final(self).slots() == after_edits(old(self).slots(), edit_views(edits@))
                    &&& changed == any_change(old(self).slots(), edit_views(edits@))
                    &&& !changed ==> *final(self) == *old(self)
                },
                Err((i, e)) => first_refusal(old(self).slots(), edit_views(edits@)) == Some((i as int, e))
                    && *final(self) == *old(self),
            },
    {
        let ghost m0 = self.slots();
        let ghost views = edit_views(edits@);
        let mut work = self.duplicate();
        let mut changed = false;
        let mut i: usize = 0;
        proof {
            assert(views.skip(0) =~= views);
        }
        while i < edits.len()
            invariant
                i <= edits.len(),
                views == edit_views(edits@),
                m0 == old(self).slots(),
                *self == *old(self),
                first_refusal(m0, views) == later(first_refusal(work.slots(), views.skip(i as int)), i as int),
                after_edits(m0, views) == after_edits(work.slots(), views.skip(i as int)),
                any_change(m0, views) == (changed || any_change(work.slots(), views.skip(i as int))),
                !changed ==> work.slots() == m0,
            decreases edits.len() - i,
        {
            proof {
                assert(views.skip(i as int)[0] == edits@[i as int]@);
                assert(views.skip(i as int).skip(1) =~= views.skip(i + 1));
            }
            match work.apply_edit(&edits[i]) {
                Ok(c) => {
                    changed = changed || c;
                },
                Err(e) => {
                    return Err((i, e));
                },
            }
            i = i + 1;
        }
        if changed {
            *self = work;
        }
        Ok(changed)
    }
}

/// A refusal counted from `by` edits earlier.
pub open spec fn later(r: Option<(int, EditError)>, by: int) -> Option<(int, EditError)> {
    match r {
        Some((i, e)) => Some((i + by, e)),
        None => None,
    }
}

} // verus!
