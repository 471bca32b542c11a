//! Catalog snapshot and the cascading catalog walker.
//!
//! The catalog itself (the host's transactional metadata store) is an
//! external collaborator: the host hands this library a snapshot of the
//! index rows it can see, as plain values. An index is *governed* when its
//! access method is the one registered to this system; only governed
//! indices have a mirrored remote resource. The walker enumerates, for one
//! drop scope, exactly the governed indices the drop cascades to.

use vstd::prelude::*;
use crate::xact::HandleModel;
use crate::xact::RemoteHandle;

verus! {

/// One index row of the catalog snapshot: the index's identity, the
/// containers it belongs to, its access method, and the catalog metadata
/// from which its remote resource address was derived.
pub struct IndexMeta {
    /// Catalog-assigned identity of the index, unique within the catalog.
    pub oid: u32,
    /// The table the index is attached to.
    pub table_oid: u32,
    /// The schema (namespace) the index lives in.
    pub schema_oid: u32,
    /// The access method implementing the index.
    pub access_method: u32,
    /// Remote engine endpoint serving the mirrored resource.
    pub endpoint: String,
    /// Name of the mirrored resource at that endpoint, derived by the
    /// host one-to-one from the index identity.
    pub resource: String,
}

/// Mathematical model of an [`IndexMeta`].
pub struct IndexModel {
    pub oid: u32,
    pub table_oid: u32,
    pub schema_oid: u32,
    pub access_method: u32,
    pub endpoint: Seq<char>,
    pub resource: Seq<char>,
}

impl View for IndexMeta {
    type V = IndexModel;

    open spec fn view(&self) -> IndexModel {
        IndexModel {
            oid: self.oid,
            table_oid: self.table_oid,
            schema_oid: self.schema_oid,
            access_method: self.access_method,
            endpoint: self.endpoint@,
            resource: self.resource@,
        }
    }
}

impl DeepView for IndexMeta {
    type V = IndexModel;

    open spec fn deep_view(&self) -> IndexModel {
        self.view()
    }
}

/// A snapshot of the catalog as this system sees it.
pub struct Catalog {
    /// Every index row visible to the current transaction.
    pub indices: Vec<IndexMeta>,
    /// The access method registered to this system; indices using it are
    /// governed.
    pub search_am: u32,
    /// This system's own extension identity; dropping any other extension
    /// must not cascade.
    pub extension_oid: u32,
}

/// Mathematical model of a [`Catalog`].
pub struct CatalogModel {
    pub indices: Seq<IndexModel>,
    pub search_am: u32,
    pub extension_oid: u32,
}

impl View for Catalog {
    type V = CatalogModel;

    open spec fn view(&self) -> CatalogModel {
        CatalogModel {
            indices: self.indices.deep_view(),
            search_am: self.search_am,
            extension_oid: self.extension_oid,
        }
    }
}

impl CatalogModel {
    /// Index identities are unique within the catalog.
    pub open spec fn wf(self) -> bool {
        forall|i: int, j: int|
            0 <= i < j < self.indices.len() ==> self.indices[i].oid != self.indices[j].oid
    }
}

/// Whether `ix` is governed by this system.
pub open spec fn is_governed(cat: CatalogModel, ix: IndexModel) -> bool {
    ix.access_method == cat.search_am
}

/// Governance predicate: whether a given index belongs to this system.
pub fn index_is_governed(cat: &Catalog, index: &IndexMeta) -> (r: bool)
    ensures
        r == is_governed(cat@, index@),
{
    index.access_method == cat.search_am
}

/// The remote resource handle derived from one index row.
pub open spec fn handle_model_of(ix: IndexModel) -> HandleModel {
    HandleModel { endpoint: ix.endpoint, resource: ix.resource }
}

/// Builds the owned remote resource handle for one index. The handle
/// carries everything a deferred delete needs by value, with no
/// back-reference to the catalog.
pub fn handle_for(index: &IndexMeta) -> (h: RemoteHandle)
    ensures
        h@ == handle_model_of(index@),
{
    RemoteHandle { endpoint: index.endpoint.clone(), resource: index.resource.clone() }
}

/// The granularity of one catalog drop event.
#[derive(Clone, Copy, PartialEq, Eq, Structural, Debug)]
pub enum DropScope {
    /// One index, by identity.
    Index(u32),
    /// Every index of one table.
    Table(u32),
    /// Every index in one schema.
    Schema(u32),
    /// Every index in the catalog, gated on the dropped extension being
    /// this system's own.
    Extension(u32),
}

/// Whether dropping `scope` cascades to `ix`: the index must be governed,
/// and must lie in the scope; an extension drop reaches nothing unless the
/// dropped extension is this system's own.
pub open spec fn in_scope(cat: CatalogModel, ix: IndexModel, scope: DropScope) -> bool {
    is_governed(cat, ix) && match scope {
        DropScope::Index(oid) => ix.oid == oid,
        DropScope::Table(t) => ix.table_oid == t,
        DropScope::Schema(s) => ix.schema_oid == s,
        DropScope::Extension(e) => e == cat.extension_oid,
    }
}

/// The identities, in catalog order, of the indices a drop of `scope`
/// cascades to, out of the rows `ixs`.
pub open spec fn scope_oids(cat: CatalogModel, ixs: Seq<IndexModel>, scope: DropScope) -> Seq<u32>
    decreases ixs.len(),
{
    if ixs.len() == 0 {
        Seq::empty()
    } else {
        scope_oids(cat, ixs.drop_last(), scope) + if in_scope(cat, ixs.last(), scope) {
            seq![ixs.last().oid]
        } else {
            Seq::empty()
        }
    }
}

/// The first catalog row carrying `oid`, if any.
pub open spec fn lookup(ixs: Seq<IndexModel>, oid: u32) -> Option<IndexModel>
    decreases ixs.len(),
{
    if ixs.len() == 0 {
        None
    } else if ixs[0].oid == oid {
        Some(ixs[0])
    } else {
        lookup(ixs.subrange(1, ixs.len() as int), oid)
    }
}

/// With unique identities, looking a member's identity up finds that member.
pub proof fn lemma_lookup_member(ixs: Seq<IndexModel>, k: int)
    requires
        forall|i: int, j: int| 0 <= i < j < ixs.len() ==> ixs[i].oid != ixs[j].oid,
        0 <= k < ixs.len(),
    ensures
        lookup(ixs, ixs[k].oid) == Some(ixs[k]),
    decreases ixs.len(),
{
    if k > 0 {
        let rest = ixs.subrange(1, ixs.len() as int);
        lemma_lookup_member(rest, k - 1);
    }
}

/// Finds the catalog row carrying `oid`.
pub fn find_by_oid<'a>(cat: &'a Catalog, oid: u32) -> (r: Option<&'a IndexMeta>)
    ensures
        match r {
            Some(ix) => lookup(cat@.indices, oid) == Some(ix@),
            None => lookup(cat@.indices, oid) is None,
        },
{
    let ghost all = cat@.indices;
    let n = cat.indices.len();
    proof {
        assert(all.subrange(0, n as int) =~= all);
    }
    for i in 0..n
        invariant
            n == cat.indices.len(),
            all == cat@.indices,
            lookup(all, oid) == lookup(all.subrange(i as int, n as int), oid),
    {
        let ix = &cat.indices[i];
        if ix.oid == oid {
            proof {
                let tail = all.subrange(i as int, n as int);
                assert(tail[0] == all[i as int]);
            }
            return Some(ix);
        }
        proof {
            let tail = all.subrange(i as int, n as int);
            assert(tail[0] == all[i as int]);
            assert(tail.subrange(1, tail.len() as int) =~= all.subrange(
                i as int + 1,
                n as int,
            ));
        }
    }
    proof {
        assert(all.subrange(n as int, n as int) =~= Seq::<IndexModel>::empty());
    }
    None
}

/// Cascading catalog walker: enumerates the identities of the governed
/// indices a drop of `scope` cascades to, in catalog order. An extension
/// scope short-circuits to nothing unless the dropped extension is this
/// system's own. The enumeration is finite and consumed in a single pass
/// by the reconciler; locking each enumerated index is the host's concern.
pub fn enumerate_scope(cat: &Catalog, scope: DropScope) -> (oids: Vec<u32>)
    ensures
        oids@ == scope_oids(cat@, cat@.indices, scope),
{
    let mut oids: Vec<u32> = Vec::new();
    if let DropScope::Extension(e) = scope {
        if e != cat.extension_oid {
            proof {
                lemma_scope_oids_none(cat@, cat@.indices, scope);
            }
            return oids;
        }
    }
    let n = cat.indices.len();
    for i in 0..n
        invariant
            n == cat.indices.len(),
            oids@ == scope_oids(cat@, cat@.indices.take(i as int), scope),
    {
        let ix = &cat.indices[i];
        let selected = match scope {
            DropScope::Index(oid) => ix.oid == oid && ix.access_method == cat.search_am,
            DropScope::Table(t) => ix.table_oid == t && ix.access_method == cat.search_am,
            DropScope::Schema(s) => ix.schema_oid == s && ix.access_method == cat.search_am,
            DropScope::Extension(e) => e == cat.extension_oid && ix.access_method
                == cat.search_am,
        };
        if selected {
            oids.push(ix.oid);
        }
        proof {
            let pre = cat@.indices.take(i as int);
            let post = cat@.indices.take(i as int + 1);
            assert(post.drop_last() =~= pre);
            assert(post.last() == cat@.indices[i as int]);
            assert(selected == in_scope(cat@, cat@.indices[i as int], scope));
            if selected {
                assert(oids@ =~= scope_oids(cat@, pre, scope) + seq![
                    cat@.indices[i as int].oid,
                ]);
            } else {
                assert(oids@ =~= scope_oids(cat@, pre, scope) + Seq::<u32>::empty());
            }
        }
    }
    proof {
        assert(cat@.indices.take(n as int) =~= cat@.indices);
    }
    oids
}

/// When no row is in scope the walk yields nothing; in particular a drop of
/// an unrelated extension cascades to no index at all.
proof fn lemma_scope_oids_none(cat: CatalogModel, ixs: Seq<IndexModel>, scope: DropScope)
    requires
        forall|i: int| 0 <= i < ixs.len() ==> !in_scope(cat, #[trigger] ixs[i], scope),
    ensures
        scope_oids(cat, ixs, scope) =~= Seq::<u32>::empty(),
    decreases ixs.len(),
{
    if ixs.len() > 0 {
        lemma_scope_oids_none(cat, ixs.drop_last(), scope);
    }
}

} // verus!
