//! The fingerprint cache: committed rows, staged additions and staged
//! deletions, and the writes that a commit hands to the store.

use vstd::prelude::*;
use vstd::hash_map::StringHashMap;
use crate::text::{same_text, texts_of};

verus! {

/// What the cache knows of one path: the size the file had when it was
/// fingerprinted, and its identifier.
pub struct VideoCacheItem {
    filesize: u64,
    id: String,
}

/// The mathematical value of a cache item.
pub struct CacheRow {
    pub size: u64,
    pub id: Seq<char>,
}

impl View for VideoCacheItem {
    type V = CacheRow;

    closed spec fn view(&self) -> CacheRow {
        CacheRow { size: self.filesize, id: self.id@ }
    }
}

impl Clone for VideoCacheItem {
    fn clone(&self) -> (copy: Self)
        ensures
            copy == *self,
    {
        VideoCacheItem { filesize: self.filesize, id: self.id.clone() }
    }
}

impl VideoCacheItem {
    pub fn new(filesize: u64, id: String) -> (item: Self)
        ensures
            item@ == (CacheRow { size: filesize, id: id@ }),
    {
        Self { filesize, id }
    }

    pub fn filesize(&self) -> (size: u64)
        ensures
            size == self@.size,
    {
        self.filesize
    }

    pub fn id(&self) -> (id: &str)
        ensures
            id@ == self@.id,
    {
        self.id.as_str()
    }
}

/// One write to the persistent store.
pub enum StoreWrite {
    /// Remove the row of a path, if there is one.
    Delete { path: String },
    /// Insert the row of a path, replacing the one it may have.
    Upsert { path: String, size: u64, id: String },
}

/// The mathematical value of a store write.
pub enum WriteView {
    Delete { path: Seq<char> },
    Upsert { path: Seq<char>, size: u64, id: Seq<char> },
}

impl View for StoreWrite {
    type V = WriteView;

    open spec fn view(&self) -> WriteView {
        match self {
            StoreWrite::Delete { path } => WriteView::Delete { path: path@ },
            StoreWrite::Upsert { path, size, id } => WriteView::Upsert {
                path: path@,
                size: *size,
                id: id@,
            },
        }
    }
}

/// The rows of a store, or of the committed part of a cache, by path.
pub type Rows = Map<Seq<char>, CacheRow>;

/// The rows after one write.
pub open spec fn apply_write(rows: Rows, write: WriteView) -> Rows {
    match write {
        WriteView::Delete { path } => rows.remove(path),
        WriteView::Upsert { path, size, id } => rows.insert(path, CacheRow { size, id }),
    }
}

/// The rows after a sequence of writes, applied first to last.
pub open spec fn apply_writes(rows: Rows, writes: Seq<WriteView>) -> Rows
    decreases writes.len(),
{
    if writes.len() == 0 {
        rows
    } else {
        apply_write(apply_writes(rows, writes.drop_last()), writes.last())
    }
}

/// One deletion for each path, in order.
pub open spec fn delete_writes(paths: Seq<Seq<char>>) -> Seq<WriteView> {
    Seq::new(paths.len(), |i: int| WriteView::Delete { path: paths[i] })
}

/// One insertion for each path of `order`, with the row that `adds` holds
/// for it, in order.
pub open spec fn add_writes(adds: Rows, order: Seq<Seq<char>>) -> Seq<WriteView> {
    Seq::new(
        order.len(),
        |i: int| WriteView::Upsert { path: order[i], size: adds[order[i]].size, id: adds[order[i]].id },
    )
}

/// The views of a vector of writes.
pub open spec fn writes_of(writes: Seq<StoreWrite>) -> Seq<WriteView> {
    Seq::new(writes.len(), |i: int| writes[i]@)
}

/// The mathematical value of a cache.
pub struct CacheView {
    /// The rows that mirror the store.
    pub committed: Rows,
    /// The rows staged for insertion.
    pub adds: Rows,
    /// The paths staged for insertion, in the order they were first staged.
    pub add_order: Seq<Seq<char>>,
    /// The paths staged for deletion, in the order they were staged.
    pub deletes: Seq<Seq<char>>,
}

impl CacheView {
    /// No path is staged both for insertion and for deletion, and
    /// `add_order` lists the staged paths once each.
    pub open spec fn wf(self) -> bool {
        &&& self.add_order.no_duplicates()
        &&& forall|p: Seq<char>| self.adds.contains_key(p) <==> self.add_order.contains(p)
        &&& forall|p: Seq<char>| self.deletes.contains(p) ==> !self.adds.contains_key(p)
    }

    pub open spec fn empty() -> CacheView {
        CacheView {
            committed: Map::empty(),
            adds: Map::empty(),
            add_order: Seq::empty(),
            deletes: Seq::empty(),
        }
    }

    /// What a lookup of `path` finds: the staged addition if there is one,
    /// else the committed row. Staged deletions do not hide a committed row.
    pub open spec fn lookup(self, path: Seq<char>) -> Option<CacheRow> {
        if self.adds.contains_key(path) {
            Some(self.adds[path])
        } else if self.committed.contains_key(path) {
            Some(self.committed[path])
        } else {
            None
        }
    }

    /// The cache after staging the insertion of `row` at `path`; a deletion
    /// staged for the path is withdrawn.
    pub open spec fn stage_add(self, path: Seq<char>, row: CacheRow) -> CacheView {
        CacheView {
            committed: self.committed,
            adds: self.adds.insert(path, row),
            add_order: if self.adds.contains_key(path) {
                self.add_order
            } else {
                self.add_order.push(path)
            },
            deletes: without(self.deletes, path),
        }
    }

    /// The cache after staging the deletion of `path`. A path with a staged
    /// insertion keeps it: a commit deletes before it inserts, so the
    /// deletion could never take effect.
    pub open spec fn stage_delete(self, path: Seq<char>) -> CacheView {
        if self.adds.contains_key(path) {
            self
        } else {
            CacheView { deletes: self.deletes.push(path), ..self }
        }
    }

    /// The writes that a commit hands to the store: every deletion, then
    /// every insertion.
    pub open spec fn pending_writes(self) -> Seq<WriteView> {
        delete_writes(self.deletes) + add_writes(self.adds, self.add_order)
    }

    /// The committed rows after a commit: the old ones without the deleted
    /// paths, overridden by the staged insertions.
    pub open spec fn committed_after(self) -> Rows {
        self.committed.remove_keys(self.deletes.to_set()).union_prefer_right(self.adds)
    }

    /// The cache after a commit.
    pub open spec fn commit(self) -> CacheView {
        CacheView {
            committed: self.committed_after(),
            adds: Map::empty(),
            add_order: Seq::empty(),
            deletes: Seq::empty(),
        }
    }
}

/// The view of the rows held in a hash map.
pub open spec fn rows_of(map: Map<Seq<char>, VideoCacheItem>) -> Rows {
    map.map_values(|item: VideoCacheItem| item@)
}

/// The fingerprint cache.
pub struct VideoCache {
    items: StringHashMap<VideoCacheItem>,
    add: StringHashMap<VideoCacheItem>,
    add_keys: Vec<String>,
    delete: Vec<String>,
}

impl View for VideoCache {
    type V = CacheView;

    closed spec fn view(&self) -> CacheView {
        CacheView {
            committed: rows_of(self.items@),
            adds: rows_of(self.add@),
            add_order: texts_of(self.add_keys@),
            deletes: texts_of(self.delete@),
        }
    }
}

impl VideoCache {
    /// The invariant of a cache: that of its value.
    pub open spec fn wf(&self) -> bool {
        self@.wf()
    }

    pub fn new() -> (cache: Self)
        ensures
            cache.wf(),
            cache@ == CacheView::empty(),
    {
        let cache = Self {
            items: StringHashMap::new(),
            add: StringHashMap::new(),
            add_keys: Vec::new(),
            delete: Vec::new(),
        };
        assert(cache@.committed =~= Map::empty());
        assert(cache@.adds =~= Map::empty());
        assert(cache@.add_order =~= Seq::empty());
        assert(cache@.deletes =~= Seq::empty());
        cache
    }

    /// Looks a path up: among the staged insertions first, then among the
    /// committed rows.
    pub fn get_video(&self, p: &str) -> (found: Option<&VideoCacheItem>)
        ensures
            match found {
                Some(item) => self@.lookup(p@) == Some(item@),
                None => self@.lookup(p@) is None,
            },
    {
        match self.add.get(p) {
            Some(item) => Some(item),
            None => self.items.get(p),
        }
    }

    /// Whether the identifier of the file at `path`, of `size` bytes, has to
    /// be made from a digest: the cache finds no row of the path with that
    /// size.
    pub fn needs_digest(&self, path: &str, size: u64) -> (needed: bool)
        ensures
            needed == !(self@.lookup(path@) is Some && self@.lookup(path@)->0.size == size),
    {
        match self.get_video(path) {
            Some(v) => v.filesize() != size,
            None => true,
        }
    }

    /// Stages the insertion of `v` at path `p`, replacing an insertion
    /// staged earlier and withdrawing a staged deletion of the path.
    pub fn add_video(&mut self, p: &str, v: VideoCacheItem)
        requires
            old(self).wf(),
        ensures
            final(self).wf(),
            final(self)@ == old(self)@.stage_add(p@, v@),
    {
        let ghost before = self@;
        if !self.add.contains_key(p) {
            self.add_keys.push(p.to_owned());
        }
        self.add.insert(p.to_owned(), v);
        let mut kept: Vec<String> = Vec::new();
        let mut i: usize = 0;
        while i < self.delete.len()
            invariant
                i <= self.delete.len(),
                texts_of(self.delete@) == before.deletes,
                texts_of(kept@) == without(before.deletes.take(i as int), p@),
                rows_of(self.add@) == before.adds.insert(p@, v@),
                rows_of(self.items@) == before.committed,
                texts_of(self.add_keys@) == before.stage_add(p@, v@).add_order,
            decreases self.delete.len() - i,
        {
            proof {
                let prefix = before.deletes.take(i as int);
                let next = before.deletes.take(i + 1);
                assert(next.drop_last() =~= prefix);
                assert(next.last() == before.deletes[i as int]);
                assert(before.deletes[i as int] == self.delete@[i as int]@);
            }
            if !same_text(self.delete[i].as_str(), p) {
                kept.push(self.delete[i].clone());
                assert(texts_of(kept@) =~= without(before.deletes.take(i + 1), p@));
            }
            i = i + 1;
        }
        proof {
            assert(before.deletes.take(i as int) =~= before.deletes);
        }
        self.delete = kept;
        proof {
            let after = before.stage_add(p@, v@);
            assert(self@.committed == after.committed);
            assert(self@.adds == after.adds);
            assert(self@.add_order == after.add_order);
            assert(self@.deletes == after.deletes);
            lemma_stage_add_wf(before, p@, v@);
        }
    }

    /// Stages the deletion of path `p`, unless an insertion is staged for
    /// it.
    pub fn delete_video(&mut self, p: &str)
        requires
            old(self).wf(),
        ensures
            final(self).wf(),
            final(self)@ == old(self)@.stage_delete(p@),
    {
        if !self.add.contains_key(p) {
            self.delete.push(p.to_owned());
            assert(texts_of(self.delete@) =~= old(self)@.deletes.push(p@));
            proof {
                lemma_stage_delete_wf(old(self)@, p@);
            }
        }
    }
}

impl VideoCache {
    /// The writes that a commit would hand to the store now, every deletion
    /// before every insertion; nothing changes. With them the store can be
    /// written before the commit mirrors them, so that a store that fails
    /// leaves the cache as it was, with everything still staged.
    pub fn staged_writes(&self) -> (writes: Vec<StoreWrite>)
        requires
            self.wf(),
        ensures
            writes_of(writes@) == self@.pending_writes(),
    {
        let ghost view = self@;
        let mut writes: Vec<StoreWrite> = Vec::new();
        let mut i: usize = 0;
        assert(writes_of(writes@) =~= delete_writes(view.deletes.take(0)));
        while i < self.delete.len()
            invariant
                i <= self.delete.len(),
                view == self@,
                writes_of(writes@) == delete_writes(view.deletes.take(i as int)),
            decreases self.delete.len() - i,
        {
            let ghost done = writes_of(writes@);
            writes.push(StoreWrite::Delete { path: self.delete[i].clone() });
            proof {
                assert(view.deletes[i as int] == self.delete@[i as int]@);
                assert(writes_of(writes@) =~= done.push(
                    WriteView::Delete { path: view.deletes[i as int] },
                ));
                assert(writes_of(writes@) =~= delete_writes(view.deletes.take(i + 1)));
            }
            i = i + 1;
        }
        assert(view.deletes.take(i as int) =~= view.deletes);
        let mut j: usize = 0;
        assert(writes_of(writes@) =~= delete_writes(view.deletes) + add_writes(
            view.adds,
            view.add_order.take(0),
        ));
        while j < self.add_keys.len()
            invariant
                j <= self.add_keys.len(),
                view == self@,
                view.wf(),
                writes_of(writes@) == delete_writes(view.deletes) + add_writes(
                    view.adds,
                    view.add_order.take(j as int),
                ),
            decreases self.add_keys.len() - j,
        {
            let ghost done = writes_of(writes@);
            let path: String = self.add_keys[j].clone();
            proof {
                assert(view.add_order[j as int] == path@);
                assert(view.add_order.contains(path@));
                assert(self.add@.contains_key(path@));
            }
            match self.add.get(path.as_str()) {
                Some(item) => {
                    let size: u64 = item.filesize;
                    let id: String = item.id.clone();
                    writes.push(StoreWrite::Upsert { path, size, id });
                    proof {
                        let key = view.add_order[j as int];
                        let write = WriteView::Upsert {
                            path: key,
                            size: view.adds[key].size,
                            id: view.adds[key].id,
                        };
                        assert(writes_of(writes@) =~= done.push(write));
                        assert(writes_of(writes@) =~= delete_writes(view.deletes) + add_writes(
                            view.adds,
                            view.add_order.take(j + 1),
                        ));
                    }
                },
                None => {
                    assert(false);
                },
            }
            j = j + 1;
        }
        assert(view.add_order.take(j as int) =~= view.add_order);
        writes
    }

    /// Ends a staging cycle. Returns the writes for the store, every
    /// deletion before every insertion; mirrors them into the committed
    /// rows; and clears what was staged. A store that held the committed
    /// rows before, and applies the writes in order, holds the committed
    /// rows after.
    pub fn commit(&mut self) -> (writes: Vec<StoreWrite>)
        requires
            old(self).wf(),
        ensures
            final(self).wf(),
            final(self)@ == old(self)@.commit(),
            writes_of(writes@) == old(self)@.pending_writes(),
            final(self)@.committed == apply_writes(
                old(self)@.committed,
                old(self)@.pending_writes(),
            ),
    {
        let ghost before = self@;
        let mut writes: Vec<StoreWrite> = Vec::new();
        let mut i: usize = 0;
        assert(writes_of(writes@) =~= delete_writes(before.deletes.take(0)));
        while i < self.delete.len()
            invariant
                i <= self.delete.len(),
                texts_of(self.delete@) == before.deletes,
                texts_of(self.add_keys@) == before.add_order,
                rows_of(self.add@) == before.adds,
                writes_of(writes@) == delete_writes(before.deletes.take(i as int)),
                rows_of(self.items@) == apply_writes(before.committed, writes_of(writes@)),
            decreases self.delete.len() - i,
        {
            let ghost done = writes_of(writes@);
            let path: String = self.delete[i].clone();
            self.items.remove(path.as_str());
            writes.push(StoreWrite::Delete { path });
            proof {
                let write = WriteView::Delete { path: before.deletes[i as int] };
                assert(before.deletes[i as int] == self.delete@[i as int]@);
                assert(writes_of(writes@) =~= done.push(write));
                assert(writes_of(writes@).drop_last() =~= done);
                assert(writes_of(writes@) =~= delete_writes(before.deletes.take(i + 1)));
                assert(rows_of(self.items@) =~= apply_write(
                    apply_writes(before.committed, done),
                    write,
                ));
            }
            i = i + 1;
        }
        assert(before.deletes.take(i as int) =~= before.deletes);
        let mut j: usize = 0;
        assert(writes_of(writes@) =~= delete_writes(before.deletes) + add_writes(
            before.adds,
            before.add_order.take(0),
        ));
        while j < self.add_keys.len()
            invariant
                j <= self.add_keys.len(),
                before.wf(),
                texts_of(self.add_keys@) == before.add_order,
                rows_of(self.add@) == before.adds,
                writes_of(writes@) == delete_writes(before.deletes) + add_writes(
                    before.adds,
                    before.add_order.take(j as int),
                ),
                rows_of(self.items@) == apply_writes(before.committed, writes_of(writes@)),
            decreases self.add_keys.len() - j,
        {
            let ghost done = writes_of(writes@);
            let path: String = self.add_keys[j].clone();
            proof {
                assert(before.add_order[j as int] == path@);
                assert(before.add_order.contains(path@));
                assert(before.adds.contains_key(path@));
                assert(self.add@.contains_key(path@));
            }
            match self.add.get(path.as_str()) {
                Some(item) => {
                    let row: VideoCacheItem = item.clone();
                    let size: u64 = row.filesize;
                    let id: String = row.id.clone();
                    self.items.insert(path.clone(), row);
                    writes.push(StoreWrite::Upsert { path, size, id });
                    proof {
                        let key = before.add_order[j as int];
                        let write = WriteView::Upsert {
                            path: key,
                            size: before.adds[key].size,
                            id: before.adds[key].id,
                        };
                        assert(writes_of(writes@) =~= done.push(write));
                        assert(writes_of(writes@).drop_last() =~= done);
                        assert(writes_of(writes@) =~= delete_writes(before.deletes) + add_writes(
                            before.adds,
                            before.add_order.take(j + 1),
                        ));
                        assert(rows_of(self.items@) =~= apply_write(
                            apply_writes(before.committed, done),
                            write,
                        ));
                    }
                },
                None => {
                    assert(false);
                },
            }
            j = j + 1;
        }
        assert(before.add_order.take(j as int) =~= before.add_order);
        self.add.clear();
        self.add_keys = Vec::new();
        self.delete = Vec::new();
        proof {
            lemma_commit_rows(before);
            assert(self@.adds =~= Map::empty());
            assert(self@.add_order =~= Seq::empty());
            assert(self@.deletes =~= Seq::empty());
        }
        writes
    }
}

/// A cache whose committed rows are those handed over, with nothing staged.
/// Of two rows with one path the later one stays.
pub fn get_video_cache(rows: Vec<(String, VideoCacheItem)>) -> (cache: VideoCache)
    ensures
        cache.wf(),
        cache@.adds == Rows::empty(),
        cache@.add_order == Seq::<Seq<char>>::empty(),
        cache@.deletes == Seq::<Seq<char>>::empty(),
        cache@.committed == rows_from(rows@),
{
    let mut cache = VideoCache::new();
    let mut rows = rows;
    let ghost all = rows@;
    let mut i: usize = 0;
    while i < rows.len()
        invariant
            i <= rows.len(),
            rows@ == all,
            cache.wf(),
            cache@.adds == Rows::empty(),
            cache@.add_order == Seq::<Seq<char>>::empty(),
            cache@.deletes == Seq::<Seq<char>>::empty(),
            cache@.committed == rows_from(all.take(i as int)),
        decreases rows.len() - i,
    {
        let path: String = rows[i].0.clone();
        let item: VideoCacheItem = rows[i].1.clone();
        cache.items.insert(path, item);
        proof {
            assert(all.take(i + 1).drop_last() =~= all.take(i as int));
            assert(cache@.committed =~= rows_from(all.take(i + 1)));
        }
        i = i + 1;
    }
    assert(all.take(i as int) =~= all);
    cache
}

/// The rows that a list of pairs holds, a later pair replacing an earlier
/// one with the same path.
pub open spec fn rows_from(pairs: Seq<(String, VideoCacheItem)>) -> Rows
    decreases pairs.len(),
{
    if pairs.len() == 0 {
        Map::empty()
    } else {
        rows_from(pairs.drop_last()).insert(pairs.last().0@, pairs.last().1@)
    }
}

/// Applying two runs of writes one after the other is applying their
/// concatenation.
pub proof fn lemma_apply_writes_concat(rows: Rows, first: Seq<WriteView>, second: Seq<WriteView>)
    ensures
        apply_writes(rows, first + second) == apply_writes(apply_writes(rows, first), second),
    decreases second.len(),
{
    if second.len() == 0 {
        assert(first + second =~= first);
    } else {
        assert((first + second).drop_last() =~= first + second.drop_last());
        lemma_apply_writes_concat(rows, first, second.drop_last());
    }
}

/// Applying deletions removes exactly the deleted paths.
pub proof fn lemma_apply_deletes(rows: Rows, paths: Seq<Seq<char>>)
    ensures
        apply_writes(rows, delete_writes(paths)) == rows.remove_keys(paths.to_set()),
    decreases paths.len(),
{
    if paths.len() == 0 {
        assert(rows.remove_keys(paths.to_set()) =~= rows);
    } else {
        let rest = paths.drop_last();
        lemma_apply_deletes(rows, rest);
        assert(delete_writes(paths).drop_last() =~= delete_writes(rest));
        assert forall|p: Seq<char>| paths.to_set().contains(p) <==> (rest.to_set().contains(p) || p
            == paths.last()) by {
            if paths.contains(p) {
                let i = choose|i: int| 0 <= i < paths.len() && paths[i] == p;
                if i < rest.len() {
                    assert(rest[i] == p);
                }
            }
            if rest.contains(p) {
                let i = choose|i: int| 0 <= i < rest.len() && rest[i] == p;
                assert(paths[i] == p);
            }
            assert(paths[paths.len() - 1] == paths.last());
        }
        assert(rows.remove_keys(rest.to_set()).remove(paths.last()) =~= rows.remove_keys(
            paths.to_set(),
        ));
    }
}

/// Applying the insertions of a list of staged paths overrides the rows with
/// the staged rows of those paths.
pub proof fn lemma_apply_adds(rows: Rows, adds: Rows, order: Seq<Seq<char>>)
    requires
        forall|p: Seq<char>| order.contains(p) ==> #[trigger] adds.contains_key(p),
    ensures
        apply_writes(rows, add_writes(adds, order)) == rows.union_prefer_right(
            adds.restrict(order.to_set()),
        ),
    decreases order.len(),
{
    if order.len() == 0 {
        assert(rows.union_prefer_right(adds.restrict(order.to_set())) =~= rows);
    } else {
        let rest = order.drop_last();
        assert forall|p: Seq<char>| rest.contains(p) implies #[trigger] adds.contains_key(p) by {
            let i = choose|i: int| 0 <= i < rest.len() && rest[i] == p;
            assert(order[i] == p);
        }
        lemma_apply_adds(rows, adds, rest);
        assert(add_writes(adds, order).drop_last() =~= add_writes(adds, rest));
        let key = order.last();
        assert(order[order.len() - 1] == key);
        assert(order.contains(key));
        assert forall|p: Seq<char>| order.to_set().contains(p) <==> (rest.to_set().contains(p) || p
            == key) by {
            if order.contains(p) {
                let i = choose|i: int| 0 <= i < order.len() && order[i] == p;
                if i < rest.len() {
                    assert(rest[i] == p);
                }
            }
            if rest.contains(p) {
                let i = choose|i: int| 0 <= i < rest.len() && rest[i] == p;
                assert(order[i] == p);
            }
        }
        assert(rows.union_prefer_right(adds.restrict(rest.to_set())).insert(key, adds[key])
            =~= rows.union_prefer_right(adds.restrict(order.to_set())));
    }
}

/// The writes of a commit, applied in order to the committed rows, give the
/// committed rows without the deleted paths, overridden by the staged
/// insertions.
pub proof fn lemma_commit_rows(cache: CacheView)
    requires
        cache.wf(),
    ensures
        apply_writes(cache.committed, cache.pending_writes()) == cache.committed_after(),
{
    let deletes = delete_writes(cache.deletes);
    let adds = add_writes(cache.adds, cache.add_order);
    lemma_apply_writes_concat(cache.committed, deletes, adds);
    lemma_apply_deletes(cache.committed, cache.deletes);
    lemma_apply_adds(cache.committed.remove_keys(cache.deletes.to_set()), cache.adds, cache.add_order);
    assert(cache.adds.restrict(cache.add_order.to_set()) =~= cache.adds);
}

/// Commit ordering: where a deletion and an insertion of one path are staged
/// in one cycle, in either order, the commit leaves the inserted row at the
/// path, in the cache and in a store that applies the writes in order.
pub proof fn lemma_commit_keeps_staged_add(cache: CacheView, path: Seq<char>, row: CacheRow)
    requires
        cache.wf(),
    ensures
        cache.stage_delete(path).stage_add(path, row).commit().committed[path] == row,
        cache.stage_add(path, row).stage_delete(path).commit().committed[path] == row,
        cache.stage_delete(path).stage_add(path, row).commit().committed.contains_key(path),
        cache.stage_add(path, row).stage_delete(path).commit().committed.contains_key(path),
        apply_writes(
            cache.committed,
            cache.stage_delete(path).stage_add(path, row).pending_writes(),
        )[path] == row,
        apply_writes(
            cache.committed,
            cache.stage_add(path, row).stage_delete(path).pending_writes(),
        )[path] == row,
{
    let first = cache.stage_delete(path);
    lemma_stage_delete_wf(cache, path);
    let both = first.stage_add(path, row);
    lemma_stage_add_wf(first, path, row);
    lemma_commit_rows(both);
    let other = cache.stage_add(path, row);
    lemma_stage_add_wf(cache, path, row);
    let swapped = other.stage_delete(path);
    lemma_stage_delete_wf(other, path);
    lemma_commit_rows(swapped);
}

/// In the writes of a commit no insertion comes before a deletion.
pub proof fn lemma_deletes_before_adds(cache: CacheView, i: int, j: int)
    requires
        0 <= i < cache.pending_writes().len(),
        0 <= j < cache.pending_writes().len(),
        cache.pending_writes()[i] is Upsert,
        cache.pending_writes()[j] is Delete,
    ensures
        j < i,
{
}

/// A sequence of paths without every occurrence of one path.
pub open spec fn without(paths: Seq<Seq<char>>, path: Seq<char>) -> Seq<Seq<char>>
    decreases paths.len(),
{
    if paths.len() == 0 {
        paths
    } else if paths.last() == path {
        without(paths.drop_last(), path)
    } else {
        without(paths.drop_last(), path).push(paths.last())
    }
}

/// `without` keeps exactly the other paths.
pub proof fn lemma_without_contains(paths: Seq<Seq<char>>, path: Seq<char>, q: Seq<char>)
    ensures
        without(paths, path).contains(q) <==> paths.contains(q) && q != path,
    decreases paths.len(),
{
    if paths.len() > 0 {
        let rest = paths.drop_last();
        lemma_without_contains(rest, path, q);
        if paths.contains(q) {
            let i = choose|i: int| 0 <= i < paths.len() && paths[i] == q;
            if i < rest.len() {
                assert(rest[i] == q);
            }
        }
        if rest.contains(q) {
            let i = choose|i: int| 0 <= i < rest.len() && rest[i] == q;
            assert(paths[i] == q);
        }
        let kept = without(rest, path);
        if paths.last() != path {
            let out = kept.push(paths.last());
            assert(out[kept.len() as int] == paths.last());
            if kept.contains(q) {
                let i = choose|i: int| 0 <= i < kept.len() && kept[i] == q;
                assert(out[i] == q);
            }
            assert(paths[paths.len() - 1] == paths.last());
        }
    }
}

/// Staging an insertion keeps a cache value well formed.
pub proof fn lemma_stage_add_wf(cache: CacheView, path: Seq<char>, row: CacheRow)
    requires
        cache.wf(),
    ensures
        cache.stage_add(path, row).wf(),
{
    let after = cache.stage_add(path, row);
    assert forall|p: Seq<char>| after.deletes.contains(p) implies !after.adds.contains_key(p) by {
        lemma_without_contains(cache.deletes, path, p);
    }
    if cache.adds.contains_key(path) {
        assert forall|p: Seq<char>| after.adds.contains_key(p) <==> after.add_order.contains(
            p,
        ) by {}
    } else {
        assert forall|p: Seq<char>| after.adds.contains_key(p) <==> after.add_order.contains(
            p,
        ) by {
            if cache.add_order.contains(p) {
                let i = choose|i: int| 0 <= i < cache.add_order.len() && cache.add_order[i] == p;
                assert(after.add_order[i] == p);
            }
            if p == path {
                assert(after.add_order[cache.add_order.len() as int] == p);
            }
        }
        assert forall|i: int, j: int|
            0 <= i < after.add_order.len() && 0 <= j < after.add_order.len() && i != j implies after.add_order[i]
            != after.add_order[j] by {
            let n = cache.add_order.len() as int;
            if i < n {
                assert(cache.add_order.contains(cache.add_order[i]));
            }
            if j < n {
                assert(cache.add_order.contains(cache.add_order[j]));
            }
        }
    }
}

/// Staging a deletion keeps a cache value well formed.
pub proof fn lemma_stage_delete_wf(cache: CacheView, path: Seq<char>)
    requires
        cache.wf(),
    ensures
        cache.stage_delete(path).wf(),
{
    let after = cache.stage_delete(path);
    if !cache.adds.contains_key(path) {
        assert forall|p: Seq<char>| after.deletes.contains(p) implies !after.adds.contains_key(
            p,
        ) by {
            let i = choose|i: int| 0 <= i < after.deletes.len() && after.deletes[i] == p;
            if i < cache.deletes.len() {
                assert(cache.deletes[i] == p);
                assert(cache.deletes.contains(p));
            }
        }
    }
}

} // verus!
