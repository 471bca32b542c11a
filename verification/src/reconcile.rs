//! Transactional reconciler.
//!
//! Four entry points, one per catalog drop scope. Each only reads the
//! catalog snapshot and registers commit-deferred remote deletes — one per
//! governed index the drop cascades to — so a drop that is later rolled
//! back never touches the remote engine at all, while a committed drop
//! deletes exactly the mirrored resources of the dropped governed indices.

use vstd::prelude::*;
use crate::catalog::Catalog;
use crate::catalog::CatalogModel;
use crate::catalog::DropScope;
use crate::catalog::IndexMeta;
use crate::catalog::IndexModel;
use crate::catalog::enumerate_scope;
use crate::catalog::find_by_oid;
use crate::catalog::handle_for;
use crate::catalog::handle_model_of;
use crate::catalog::in_scope;
use crate::catalog::index_is_governed;
use crate::catalog::is_governed;
use crate::catalog::lemma_lookup_member;
use crate::catalog::lookup;
use crate::catalog::scope_oids;
use crate::xact::DeferredQueue;
use crate::xact::HandleModel;
use crate::xact::TxEvent;

verus! {

/// The remote deletes, in catalog order, that a drop of `scope` registers,
/// out of the rows `ixs`: one handle per in-scope row.
pub open spec fn scope_handles(cat: CatalogModel, ixs: Seq<IndexModel>, scope: DropScope) -> Seq<
    HandleModel,
>
    decreases ixs.len(),
{
    if ixs.len() == 0 {
        Seq::empty()
    } else {
        scope_handles(cat, ixs.drop_last(), scope) + if in_scope(cat, ixs.last(), scope) {
            seq![handle_model_of(ixs.last())]
        } else {
            Seq::empty()
        }
    }
}

/// The remote deletes a drop of `scope` registers against the whole catalog.
pub open spec fn drop_registrations(cat: CatalogModel, scope: DropScope) -> Seq<HandleModel> {
    scope_handles(cat, cat.indices, scope)
}

/// The remote deletes registered for a list of index identities: for each
/// identity that resolves to a governed row, that row's handle.
pub open spec fn oid_handles(cat: CatalogModel, oids: Seq<u32>) -> Seq<HandleModel>
    decreases oids.len(),
{
    if oids.len() == 0 {
        Seq::empty()
    } else {
        oid_handles(cat, oids.drop_last()) + match lookup(cat.indices, oids.last()) {
            Some(ix) => if is_governed(cat, ix) {
                seq![handle_model_of(ix)]
            } else {
                Seq::empty()
            },
            None => Seq::empty(),
        }
    }
}

/// Every identity in a list resolves to a row.
pub open spec fn all_resolve(cat: CatalogModel, oids: Seq<u32>) -> bool {
    forall|k: int| 0 <= k < oids.len() ==> lookup(cat.indices, #[trigger] oids[k]) is Some
}

/// If the index is governed, registers a commit-deferred delete of its
/// remote resource; an ungoverned index is left alone. Nothing is ever
/// registered for the abort event, and nothing runs now: the delete fires
/// only if the enclosing transaction commits.
pub fn drop_index(cat: &Catalog, index: &IndexMeta, queue: &mut DeferredQueue)
    ensures
        final(queue)@.commit == old(queue)@.commit + (if is_governed(cat@, index@) {
            seq![handle_model_of(index@)]
        } else {
            Seq::<HandleModel>::empty()
        }),
        final(queue)@.abort == old(queue)@.abort,
{
    if index_is_governed(cat, index) {
        let h = handle_for(index);
        queue.register(TxEvent::Commit, h);
        proof {
            assert(queue@.commit =~= old(queue)@.commit + seq![handle_model_of(index@)]);
        }
    } else {
        proof {
            assert(queue@.commit =~= old(queue)@.commit + Seq::<HandleModel>::empty());
        }
    }
}

/// Registers a commit-deferred remote delete for every governed index
/// attached to `table_oid`, walking the table's index list in catalog
/// order; ungoverned indices of the table register nothing. The exclusive
/// per-index lock the host takes while an index is torn down is the host's
/// concern, as is the catalog scan this walk stands for.
pub fn drop_table(cat: &Catalog, table_oid: u32, queue: &mut DeferredQueue)
    ensures
        final(queue)@.commit == old(queue)@.commit + drop_registrations(
            cat@,
            DropScope::Table(table_oid),
        ),
        final(queue)@.abort == old(queue)@.abort,
{
    let ghost scope = DropScope::Table(table_oid);
    let n = cat.indices.len();
    for i in 0..n
        invariant
            n == cat.indices.len(),
            scope == DropScope::Table(table_oid),
            queue@.commit == old(queue)@.commit + scope_handles(
                cat@,
                cat@.indices.take(i as int),
                scope,
            ),
            queue@.abort == old(queue)@.abort,
    {
        let ix = &cat.indices[i];
        if ix.table_oid == table_oid {
            drop_index(cat, ix, queue);
        }
        proof {
            let pre = cat@.indices.take(i as int);
            let post = cat@.indices.take(i as int + 1);
            let row = cat@.indices[i as int];
            assert(post.drop_last() =~= pre);
            assert(post.last() == row);
            assert(ix@ == row);
            assert(queue@.commit =~= old(queue)@.commit + scope_handles(cat@, post, scope));
        }
    }
    proof {
        assert(cat@.indices.take(n as int) =~= cat@.indices);
    }
}

/// Registers a commit-deferred remote delete for each identity in `oids`:
/// the identity is resolved in the catalog and handed to the single-index
/// path, which filters out ungoverned rows. Every identity must resolve
/// (the walker only ever hands out identities of rows it saw).
pub fn drop_index_oids(cat: &Catalog, oids: &Vec<u32>, queue: &mut DeferredQueue)
    requires
        all_resolve(cat@, oids@),
    ensures
        final(queue)@.commit == old(queue)@.commit + oid_handles(cat@, oids@),
        final(queue)@.abort == old(queue)@.abort,
{
    let n = oids.len();
    for i in 0..n
        invariant
            n == oids.len(),
            all_resolve(cat@, oids@),
            queue@.commit == old(queue)@.commit + oid_handles(cat@, oids@.take(i as int)),
            queue@.abort == old(queue)@.abort,
    {
        let oid = oids[i];
        match find_by_oid(cat, oid) {
            Some(ix) => {
                drop_index(cat, ix, queue);
            },
            None => {
                proof {
                    assert(lookup(cat@.indices, oids@[i as int]) is Some);
                    assert(false);
                }
            },
        }
        proof {
            let pre = oids@.take(i as int);
            let post = oids@.take(i as int + 1);
            assert(post.drop_last() =~= pre);
            assert(post.last() == oids@[i as int]);
            assert(queue@.commit =~= old(queue)@.commit + oid_handles(cat@, post));
        }
    }
    proof {
        assert(oids@.take(n as int) =~= oids@);
    }
}

/// `oid_handles` distributes over concatenation of identity lists.
proof fn lemma_oid_handles_add(cat: CatalogModel, a: Seq<u32>, b: Seq<u32>)
    ensures
        oid_handles(cat, a + b) =~= oid_handles(cat, a) + oid_handles(cat, b),
    decreases b.len(),
{
    if b.len() == 0 {
        assert(a + b =~= a);
        assert(oid_handles(cat, a) + oid_handles(cat, b) =~= oid_handles(cat, a));
    } else {
        lemma_oid_handles_add(cat, a, b.drop_last());
        assert((a + b).drop_last() =~= a + b.drop_last());
        assert((a + b).last() == b.last());
    }
}

/// Resolving the identities the walker enumerated for a scope yields
/// exactly that scope's registrations: every enumerated identity resolves,
/// and the handles come out the same, in the same order.
pub proof fn lemma_scope_oids_resolve(cat: CatalogModel, m: int, scope: DropScope)
    requires
        cat.wf(),
        0 <= m <= cat.indices.len(),
    ensures
        all_resolve(cat, scope_oids(cat, cat.indices.take(m), scope)),
        oid_handles(cat, scope_oids(cat, cat.indices.take(m), scope)) =~= scope_handles(
            cat,
            cat.indices.take(m),
            scope,
        ),
    decreases m,
{
    let pre = cat.indices.take(m);
    if m == 0 {
        assert(scope_oids(cat, pre, scope) =~= Seq::<u32>::empty());
    } else {
        lemma_scope_oids_resolve(cat, m - 1, scope);
        let sub = cat.indices.take(m - 1);
        assert(pre.drop_last() =~= sub);
        assert(pre.last() == cat.indices[m - 1]);
        let s0 = scope_oids(cat, sub, scope);
        if in_scope(cat, cat.indices[m - 1], scope) {
            let last = cat.indices[m - 1];
            lemma_lookup_member(cat.indices, m - 1);
            assert(scope_oids(cat, pre, scope) == s0 + seq![last.oid]);
            lemma_oid_handles_add(cat, s0, seq![last.oid]);
            let single = seq![last.oid];
            assert(single.drop_last() =~= Seq::<u32>::empty());
            assert(oid_handles(cat, Seq::<u32>::empty()) =~= Seq::<HandleModel>::empty());
            assert(single.last() == last.oid);
            assert(oid_handles(cat, single) =~= seq![handle_model_of(last)]);
            assert forall|k: int|
                0 <= k < scope_oids(cat, pre, scope).len() implies lookup(
                cat.indices,
                #[trigger] scope_oids(cat, pre, scope)[k],
            ) is Some by {
                if k < s0.len() {
                    assert(scope_oids(cat, pre, scope)[k] == s0[k]);
                } else {
                    assert(scope_oids(cat, pre, scope)[k] == last.oid);
                }
            }
        } else {
            assert(scope_oids(cat, pre, scope) =~= s0);
            assert(scope_handles(cat, pre, scope) =~= scope_handles(cat, sub, scope));
        }
    }
}

/// Registers a commit-deferred remote delete for every governed index in
/// schema `schema_oid`: the walker enumerates them, and each is registered
/// through the single-index path.
pub fn drop_schema(cat: &Catalog, schema_oid: u32, queue: &mut DeferredQueue)
    requires
        cat@.wf(),
    ensures
        final(queue)@.commit == old(queue)@.commit + drop_registrations(
            cat@,
            DropScope::Schema(schema_oid),
        ),
        final(queue)@.abort == old(queue)@.abort,
{
    let oids = enumerate_scope(cat, DropScope::Schema(schema_oid));
    proof {
        lemma_scope_oids_resolve(cat@, cat@.indices.len() as int, DropScope::Schema(schema_oid));
        assert(cat@.indices.take(cat@.indices.len() as int) =~= cat@.indices);
    }
    drop_index_oids(cat, &oids, queue);
}

/// Handles a whole-extension drop: when the dropped extension is this
/// system's own, registers a commit-deferred remote delete for every
/// governed index in the catalog; dropping an unrelated extension registers
/// nothing, even if governed indices exist.
pub fn drop_extension(cat: &Catalog, extension_oid: u32, queue: &mut DeferredQueue)
    requires
        cat@.wf(),
    ensures
        final(queue)@.commit == old(queue)@.commit + drop_registrations(
            cat@,
            DropScope::Extension(extension_oid),
        ),
        final(queue)@.abort == old(queue)@.abort,
{
    let oids = enumerate_scope(cat, DropScope::Extension(extension_oid));
    proof {
        lemma_scope_oids_resolve(
            cat@,
            cat@.indices.len() as int,
            DropScope::Extension(extension_oid),
        );
        assert(cat@.indices.take(cat@.indices.len() as int) =~= cat@.indices);
    }
    drop_index_oids(cat, &oids, queue);
}

/// Cascade-scope correctness, table side: a table drop registers exactly
/// one delete per governed index of the table — the ungoverned ones, and
/// indices of other tables, extraute nothing.
pub proof fn lemma_table_cascade_count(cat: CatalogModel, ixs: Seq<IndexModel>, table_oid: u32)
    ensures
        scope_handles(cat, ixs, DropScope::Table(table_oid)).len() == ixs.filter(
            |ix: IndexModel| ix.table_oid == table_oid && is_governed(cat, ix),
        ).len(),
    decreases ixs.len(),
{
    reveal(Seq::filter);
    if ixs.len() > 0 {
        lemma_table_cascade_count(cat, ixs.drop_last(), table_oid);
    }
}

/// Cascade-scope correctness, extension side: a drop of an extension other
/// than this system's own registers no delete at all.
pub proof fn lemma_extension_mismatch(cat: CatalogModel, extension_oid: u32)
    requires
        extension_oid != cat.extension_oid,
    ensures
        drop_registrations(cat, DropScope::Extension(extension_oid)) =~= Seq::<
            HandleModel,
        >::empty(),
{
    lemma_scope_handles_none(cat, cat.indices, DropScope::Extension(extension_oid));
}

/// When no row is in scope, no delete is registered.
proof fn lemma_scope_handles_none(cat: CatalogModel, ixs: Seq<IndexModel>, scope: DropScope)
    requires
        forall|i: int| 0 <= i < ixs.len() ==> !in_scope(cat, #[trigger] ixs[i], scope),
    ensures
        scope_handles(cat, ixs, scope) =~= Seq::<HandleModel>::empty(),
    decreases ixs.len(),
{
    if ixs.len() > 0 {
        lemma_scope_handles_none(cat, ixs.drop_last(), scope);
    }
}

} // verus!
