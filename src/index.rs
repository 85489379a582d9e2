//! Scope-to-children indices and their agreement with the entity maps.
use vstd::prelude::*;

verus! {

/// The set that `idx` holds for `scope`, or the empty set.
pub open spec fn index_set(idx: Map<u64, Set<u64>>, scope: u64) -> Set<u64> {
    if idx.contains_key(scope) {
        idx[scope]
    } else {
        Set::empty()
    }
}

/// `idx` with `id` added to the children of `scope`.
pub open spec fn idx_add(idx: Map<u64, Set<u64>>, scope: u64, id: u64) -> Map<u64, Set<u64>> {
    idx.insert(scope, index_set(idx, scope).insert(id))
}

/// `idx` with `id` taken out of the children of `scope`.
pub open spec fn idx_del(idx: Map<u64, Set<u64>>, scope: u64, id: u64) -> Map<u64, Set<u64>> {
    idx.insert(scope, index_set(idx, scope).remove(id))
}

/// Detaches `id` from its former parent, if it had one.
pub open spec fn idx_detach(idx: Map<u64, Set<u64>>, parent: Option<u64>, id: u64) -> Map<
    u64,
    Set<u64>,
> {
    match parent {
        Some(g) => idx_del(idx, g, id),
        None => idx,
    }
}

/// Attaches `id` to its new parent, if it has one.
pub open spec fn idx_attach(idx: Map<u64, Set<u64>>, parent: Option<u64>, id: u64) -> Map<
    u64,
    Set<u64>,
> {
    match parent {
        Some(g) => idx_add(idx, g, id),
        None => idx,
    }
}

/// The index after an entity `id` moves from `before` to `after`.
pub open spec fn idx_move(
    idx: Map<u64, Set<u64>>,
    before: Option<u64>,
    after: Option<u64>,
    id: u64,
) -> Map<u64, Set<u64>> {
    idx_attach(idx_detach(idx, before, id), after, id)
}

/// The parent of `id` in a parent map, `None` where `id` is not held.
pub open spec fn parent_of(parents: Map<u64, Option<u64>>, id: u64) -> Option<u64> {
    if parents.contains_key(id) {
        parents[id]
    } else {
        None
    }
}

/// No orphans either way: every id listed under a scope is held with that
/// scope as its parent, and every held entity with a parent is listed under it.
pub open spec fn consistent(parents: Map<u64, Option<u64>>, idx: Map<u64, Set<u64>>) -> bool {
    &&& forall|g: u64, id: u64|
        #[trigger] idx.contains_key(g) && #[trigger] idx[g].contains(id) ==> parents.contains_key(id)
            && parents[id] == Some(g)
    &&& forall|id: u64|
        #[trigger] parents.contains_key(id) && parents[id] is Some ==> idx.contains_key(
            parents[id]->0,
        ) && idx[parents[id]->0].contains(id)
}

pub proof fn lemma_consistent_move(
    parents: Map<u64, Option<u64>>,
    idx: Map<u64, Set<u64>>,
    id: u64,
    after: Option<u64>,
)
    requires
        consistent(parents, idx),
    ensures
        consistent(parents.insert(id, after), idx_move(idx, parent_of(parents, id), after, id)),
{
    let moved = parents.insert(id, after);
    let i1 = idx_detach(idx, parent_of(parents, id), id);
    let i2 = idx_move(idx, parent_of(parents, id), after, id);
    assert forall|g: u64, x: u64| #[trigger] i1.contains_key(g) && #[trigger] i1[g].contains(x)
        implies x != id && parents.contains_key(x) && parents[x] == Some(g) by {
        if idx.contains_key(g) {
            assert(idx[g].contains(x) || x == id);
        }
    }
    assert forall|g: u64, x: u64| #[trigger] i2.contains_key(g) && #[trigger] i2[g].contains(x)
        implies moved.contains_key(x) && moved[x] == Some(g) by {
        if x != id {
            assert(i1.contains_key(g) && i1[g].contains(x));
        }
    }
    assert forall|x: u64| #[trigger] moved.contains_key(x) && moved[x] is Some implies i2.contains_key(
        moved[x]->0,
    ) && i2[moved[x]->0].contains(x) by {
        if x != id {
            let g = parents[x]->0;
            assert(idx.contains_key(g) && idx[g].contains(x));
            assert(i1.contains_key(g) && i1[g].contains(x));
        }
    }
}

pub proof fn lemma_consistent_remove(
    parents: Map<u64, Option<u64>>,
    idx: Map<u64, Set<u64>>,
    id: u64,
)
    requires
        consistent(parents, idx),
    ensures
        consistent(parents.remove(id), idx_detach(idx, parent_of(parents, id), id)),
{
    let moved = parents.remove(id);
    let i1 = idx_detach(idx, parent_of(parents, id), id);
    assert forall|g: u64, x: u64| #[trigger] i1.contains_key(g) && #[trigger] i1[g].contains(x)
        implies moved.contains_key(x) && moved[x] == Some(g) by {
        if idx.contains_key(g) {
            assert(idx[g].contains(x));
        }
    }
    assert forall|x: u64| #[trigger] moved.contains_key(x) && moved[x] is Some implies i1.contains_key(
        moved[x]->0,
    ) && i1[moved[x]->0].contains(x) by {
        let g = parents[x]->0;
        assert(idx.contains_key(g) && idx[g].contains(x));
    }
}

/// A scope whose children are all gone may lose its index entry.
pub proof fn lemma_consistent_drop_scope(
    parents: Map<u64, Option<u64>>,
    idx: Map<u64, Set<u64>>,
    scope: u64,
)
    requires
        consistent(parents, idx),
        index_set(idx, scope).is_empty(),
    ensures
        consistent(parents, idx.remove(scope)),
        forall|id: u64| #[trigger] parents.contains_key(id) ==> parents[id] != Some(scope),
{
    assert forall|id: u64| #[trigger] parents.contains_key(id) implies parents[id] != Some(
        scope,
    ) by {
        if parents[id] == Some(scope) {
            assert(idx[scope].contains(id));
        }
    }
}

/// `idx` with the children of `scope` emptied, where `scope` is held.
pub open spec fn clear_scope_idx(idx: Map<u64, Set<u64>>, scope: u64) -> Map<u64, Set<u64>> {
    if idx.contains_key(scope) {
        idx.insert(scope, Set::empty())
    } else {
        idx
    }
}

/// Removing every child of a scope, entities and index entries alike, keeps
/// the index consistent and leaves the scope without children.
pub proof fn lemma_consistent_clear(
    parents: Map<u64, Option<u64>>,
    idx: Map<u64, Set<u64>>,
    scope: u64,
)
    requires
        consistent(parents, idx),
    ensures
        consistent(parents.remove_keys(index_set(idx, scope)), clear_scope_idx(idx, scope)),
        index_set(clear_scope_idx(idx, scope), scope).is_empty(),
{
    let gone = index_set(idx, scope);
    let moved = parents.remove_keys(gone);
    let i2 = clear_scope_idx(idx, scope);
    assert forall|g: u64, x: u64| #[trigger] i2.contains_key(g) && #[trigger] i2[g].contains(x)
        implies moved.contains_key(x) && moved[x] == Some(g) by {
        assert(g != scope);
        assert(idx[g].contains(x));
        if gone.contains(x) {
            assert(idx[scope].contains(x));
        }
    }
    assert forall|x: u64| #[trigger] moved.contains_key(x) && moved[x] is Some implies i2.contains_key(
        moved[x]->0,
    ) && i2[moved[x]->0].contains(x) by {
        let g = parents[x]->0;
        assert(idx.contains_key(g) && idx[g].contains(x));
        if g == scope {
            assert(gone.contains(x));
        }
    }
    assert(index_set(i2, scope) =~= Set::empty());
}

} // verus!
