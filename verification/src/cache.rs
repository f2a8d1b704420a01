//! The cache of decrypted chunks of one video.
//!
//! The cache holds a limited number of bytes. Where a new chunk takes it over the limit, the
//! chunks that have not been asked for the longest leave it.

use std::collections::{HashMap, HashSet, VecDeque};
use std::sync::Arc;
use vstd::prelude::*;

use crate::error::CryptoError;
use crate::secret::SecretBytes;

verus! {

/// The number of bytes that a cache holds at most.
pub const CACHE_CAPACITY_BYTES: usize = 8 * 1024 * 1024;

/// The chunks that are cached, their order of use, and the chunks that are being loaded.
pub struct CacheState {
    entries: HashMap<u64, Arc<SecretBytes>>,
    order: VecDeque<u64>,
    loading: HashSet<u64>,
    bytes: usize,
}

/// A `CacheState` as its contents.
#[verifier::ext_equal]
pub struct CacheView {
    /// The chunks, by their place in the video.
    pub chunks: Map<u64, Seq<u8>>,
    /// The places of the chunks, the one that was used last at the end.
    pub order: Seq<u64>,
    /// The places of the chunks that are being loaded.
    pub loading: Set<u64>,
}

impl View for CacheState {
    type V = CacheView;

    closed spec fn view(&self) -> CacheView {
        CacheView {
            chunks: self.entries@.map_values(|chunk: Arc<SecretBytes>| chunk@),
            order: self.order@,
            loading: self.loading@,
        }
    }
}

/// What a cache says of a chunk that is asked for.
pub enum Lookup {
    /// It is cached.
    Hit(Arc<SecretBytes>),
    /// Somebody is loading it.
    Wait,
    /// The caller has to load it.
    Load,
}

/// An order of use without one of the places.
pub open spec fn without(order: Seq<u64>, index: u64) -> Seq<u64> {
    order.filter(|other: u64| other != index)
}

/// An order of use after one of the places was used.
pub open spec fn touched(order: Seq<u64>, index: u64) -> Seq<u64> {
    without(order, index).push(index)
}

/// The number of bytes of some chunks.
pub open spec fn total(chunks: Map<u64, Seq<u8>>, order: Seq<u64>) -> nat
    decreases order.len(),
{
    if order.len() == 0 {
        0
    } else {
        total(chunks, order.drop_last()) + chunks[order.last()].len()
    }
}

/// The places that stay: of an order of use, the longest end whose chunks fit.
pub open spec fn survivors(chunks: Map<u64, Seq<u8>>, order: Seq<u64>) -> Seq<u64>
    decreases order.len(),
{
    if order.len() == 0 || total(chunks, order) <= CACHE_CAPACITY_BYTES {
        order
    } else {
        survivors(chunks, order.drop_first())
    }
}

impl CacheView {
    /// The empty cache.
    pub open spec fn empty() -> Self {
        CacheView { chunks: Map::empty(), order: Seq::empty(), loading: Set::empty() }
    }

    /// Whether the order of use names each chunk once, and the chunks fit.
    pub open spec fn wf(self) -> bool {
        &&& self.order.no_duplicates()
        &&& forall|index: u64| #[trigger]
            self.order.contains(index) <==> self.chunks.contains_key(index)
        &&& total(self.chunks, self.order) <= CACHE_CAPACITY_BYTES
    }

    /// The cache after a chunk was asked for.
    pub open spec fn asked(self, index: u64) -> Self {
        if self.chunks.contains_key(index) {
            CacheView { order: touched(self.order, index), ..self }
        } else {
            CacheView { loading: self.loading.insert(index), ..self }
        }
    }

    /// The cache after a chunk was loaded.
    pub open spec fn loaded(self, index: u64, chunk: Seq<u8>) -> Self {
        let chunks = self.chunks.insert(index, chunk);
        let order = survivors(chunks, touched(self.order, index));
        CacheView {
            chunks: chunks.restrict(order.to_set()),
            order,
            loading: self.loading.remove(index),
        }
    }

    /// The cache after a chunk could not be loaded.
    pub open spec fn not_loaded(self, index: u64) -> Self {
        CacheView { loading: self.loading.remove(index), ..self }
    }
}

proof fn without_removes(order: Seq<u64>, index: u64)
    ensures
        !without(order, index).contains(index),
        forall|other: u64|
            other != index ==> (#[trigger] without(order, index).contains(other)
                <==> order.contains(other)),
        order.no_duplicates() ==> without(order, index).no_duplicates(),
        !order.contains(index) ==> without(order, index) == order,
    decreases order.len(),
{
    reveal(Seq::filter);
    if order.len() > 0 {
        let rest = order.drop_last();
        let kept = without(rest, index);
        without_removes(rest, index);
        assert(order == rest.push(order.last()));
        let whole = without(order, index);
        if order.last() != index {
            assert(whole == kept.push(order.last()));
            assert(whole.last() == order.last());
        } else {
            assert(whole == kept);
            assert(order[order.len() - 1] == index);
        }
        assert forall|other: u64| other != index implies (#[trigger] whole.contains(other)
            <==> order.contains(other)) by {
            assert(kept.contains(other) <==> rest.contains(other));
            if whole.contains(other) {
                let i = choose|i: int| 0 <= i < whole.len() && whole[i] == other;
                if i < kept.len() {
                    assert(kept[i] == other);
                    let j = choose|j: int| 0 <= j < rest.len() && rest[j] == other;
                    assert(order[j] == other);
                } else {
                    assert(order[order.len() - 1] == other);
                }
            }
            if order.contains(other) {
                let i = choose|i: int| 0 <= i < order.len() && order[i] == other;
                if i < rest.len() {
                    assert(rest[i] == other);
                    let j = choose|j: int| 0 <= j < kept.len() && kept[j] == other;
                    assert(whole[j] == other);
                } else {
                    assert(whole[whole.len() - 1] == other);
                }
            }
        }
        if order.no_duplicates() {
            assert(rest.no_duplicates());
            if order.last() != index {
                assert(!rest.contains(order.last()));
                assert(!kept.contains(order.last()));
            }
        }
        if !order.contains(index) {
            assert(!rest.contains(index)) by {
                if rest.contains(index) {
                    let i = choose|i: int| 0 <= i < rest.len() && rest[i] == index;
                    assert(order[i] == index);
                }
            }
            assert(order[order.len() - 1] != index);
        }
    }
}

proof fn total_of_same(chunks1: Map<u64, Seq<u8>>, chunks2: Map<u64, Seq<u8>>, order: Seq<u64>)
    requires
        forall|index: u64| order.contains(index) ==> #[trigger] chunks1[index] == chunks2[index],
    ensures
        total(chunks1, order) == total(chunks2, order),
    decreases order.len(),
{
    if order.len() > 0 {
        let rest = order.drop_last();
        assert forall|index: u64| rest.contains(index) implies #[trigger] chunks1[index]
            == chunks2[index] by {
            let i = choose|i: int| 0 <= i < rest.len() && rest[i] == index;
            assert(order[i] == index);
        }
        total_of_same(chunks1, chunks2, rest);
        assert(order.contains(order.last()));
        assert(chunks1[order.last()] == chunks2[order.last()]);
    }
}

proof fn total_without(chunks: Map<u64, Seq<u8>>, order: Seq<u64>, index: u64)
    requires
        order.no_duplicates(),
    ensures
        total(chunks, order) == total(chunks, without(order, index)) + if order.contains(index) {
            chunks[index].len()
        } else {
            0
        },
    decreases order.len(),
{
    reveal(Seq::filter);
    if order.len() > 0 {
        let rest = order.drop_last();
        total_without(chunks, rest, index);
        without_removes(rest, index);
        if order.last() == index {
            assert(order[order.len() - 1] == index);
            assert(!rest.contains(index));
        } else {
            let kept = without(rest, index);
            assert(without(order, index) == kept.push(order.last()));
            assert(kept.push(order.last()).drop_last() =~= kept);
            if order.contains(index) {
                let i = choose|i: int| 0 <= i < order.len() && order[i] == index;
                assert(rest[i] == index);
            }
            if rest.contains(index) {
                let i = choose|i: int| 0 <= i < rest.len() && rest[i] == index;
                assert(order[i] == index);
            }
        }
    }
}

proof fn total_from_front(chunks: Map<u64, Seq<u8>>, order: Seq<u64>)
    requires
        order.len() > 0,
    ensures
        total(chunks, order) == chunks[order[0]].len() + total(chunks, order.drop_first()),
    decreases order.len(),
{
    if order.len() > 1 {
        total_from_front(chunks, order.drop_last());
        assert(order.drop_first().drop_last() =~= order.drop_last().drop_first());
    } else {
        assert(order.drop_last() =~= Seq::<u64>::empty());
        assert(order.drop_first() =~= Seq::<u64>::empty());
    }
}

/// Using a chunk changes the order of use only.
proof fn touched_keeps(chunks: Map<u64, Seq<u8>>, order: Seq<u64>, index: u64)
    requires
        order.no_duplicates(),
    ensures
        touched(order, index).no_duplicates(),
        forall|other: u64| #[trigger]
            touched(order, index).contains(other) <==> order.contains(other) || other == index,
        total(chunks, touched(order, index)) == total(chunks, without(order, index))
            + chunks[index].len(),
        order.contains(index) ==> total(chunks, touched(order, index)) == total(chunks, order),
{
    without_removes(order, index);
    total_without(chunks, order, index);
    let kept = without(order, index);
    let new = touched(order, index);
    assert(new.drop_last() =~= kept);
    assert forall|other: u64| #[trigger]
        new.contains(other) <==> order.contains(other) || other == index by {
        assert(kept.contains(other) ==> new.contains(other)) by {
            if kept.contains(other) {
                let i = choose|i: int| 0 <= i < kept.len() && kept[i] == other;
                assert(new[i] == other);
            }
        }
        assert(new[new.len() - 1] == index);
        if new.contains(other) && other != index {
            let i = choose|i: int| 0 <= i < new.len() && new[i] == other;
            assert(kept[i] == other);
        }
    }
}

/// Takes a place out of an order of use.
fn forget(order: &mut VecDeque<u64>, index: u64)
    ensures
        final(order)@ == without(old(order)@, index),
{
    let len: usize = order.len();
    let mut done: usize = 0;
    let ghost all = order@;
    proof {
        reveal(Seq::filter);
        assert(all.skip(0) + without(all.take(0), index) =~= all);
    }
    while done < len
        invariant
            done <= len,
            len == all.len(),
            order@ == all.skip(done as int) + without(all.take(done as int), index),
        decreases len - done,
    {
        let ghost before = order@;
        if let Some(first) = order.pop_front() {
            assert(first == all[done as int]);
            let ghost seen = all.take(done as int);
            proof {
                reveal(Seq::filter);
                assert(all.take(done + 1) =~= seen.push(first));
                assert(all.take(done + 1).drop_last() =~= seen);
                assert(before.subrange(1, before.len() as int) =~= all.skip(done + 1) + without(
                    seen,
                    index,
                ));
            }
            if first != index {
                order.push_back(first);
                assert(order@ =~= all.skip(done + 1) + without(seen, index).push(first));
            }
        }
        done = done + 1;
    }
    assert(all.skip(len as int) + without(all.take(len as int), index) =~= without(all, index)) by {
        assert(all.take(len as int) =~= all);
        assert(all.skip(len as int) =~= Seq::<u64>::empty());
    }
}

impl CacheState {
    /// Whether the order of use names each chunk once, the chunks fit, and the number of bytes
    /// is theirs.
    pub closed spec fn wf(&self) -> bool {
        &&& self@.wf()
        &&& self.bytes == total(self@.chunks, self@.order)
    }

    /// Looks for a chunk. A chunk that is neither cached nor being loaded counts as being
    /// loaded from now on.
    pub fn lookup(&mut self, index: u64) -> (answer: Lookup)
        requires
            old(self).wf(),
        ensures
            final(self).wf(),
            final(self)@.wf(),
            final(self)@ == old(self)@.asked(index),
            match answer {
                Lookup::Hit(chunk) => {
                    &&& old(self)@.chunks.contains_key(index)
                    &&& chunk@ == old(self)@.chunks[index]
                },
                Lookup::Wait => {
                    &&& !old(self)@.chunks.contains_key(index)
                    &&& old(self)@.loading.contains(index)
                },
                Lookup::Load => {
                    &&& !old(self)@.chunks.contains_key(index)
                    &&& !old(self)@.loading.contains(index)
                },
            },
    {
        let found = match self.entries.get(&index) {
            Some(chunk) => Some(chunk.clone()),
            None => None,
        };
        match found {
            Some(chunk) => {
                proof {
                    touched_keeps(self@.chunks, self@.order, index);
                    assert(self@.chunks.contains_key(index));
                    assert(self@.order.contains(index));
                }
                forget(&mut self.order, index);
                self.order.push_back(index);
                Lookup::Hit(chunk)
            },
            None => {
                if self.loading.contains(&index) {
                    assert(self@.loading.insert(index) =~= self@.loading);
                    Lookup::Wait
                } else {
                    self.loading.insert(index);
                    Lookup::Load
                }
            },
        }
    }

    /// Takes in a chunk that was being loaded, or learns that it could not be loaded.
    pub fn complete(&mut self, index: u64, loaded: Result<SecretBytes, CryptoError>) -> (outcome:
        Result<Arc<SecretBytes>, CryptoError>)
        requires
            old(self).wf(),
        ensures
            final(self).wf(),
            final(self)@.wf(),
            match loaded {
                Ok(chunk) => {
                    &&& outcome matches Ok(shared) && shared@ == chunk@
                    &&& final(self)@ == old(self)@.loaded(index, chunk@)
                },
                Err(error) => {
                    &&& outcome == Err::<Arc<SecretBytes>, CryptoError>(error)
                    &&& final(self)@ == old(self)@.not_loaded(index)
                },
            },
    {
        self.loading.remove(&index);
        let chunk = match loaded {
            Ok(chunk) => Arc::new(chunk),
            Err(error) => {
                return Err(error);
            },
        };
        let ghost before = old(self)@;
        let ghost chunks = before.chunks.insert(index, chunk@);
        let ghost order = touched(before.order, index);
        proof {
            touched_keeps(chunks, before.order, index);
            without_removes(before.order, index);
            total_without(before.chunks, before.order, index);
            total_of_same(before.chunks, chunks, without(before.order, index));
            assert(before.order.contains(index) <==> before.chunks.contains_key(index));
        }
        let len: usize = chunk.len();
        if let Some(previous) = self.entries.insert(index, chunk.clone()) {
            self.bytes = self.bytes - previous.len();
        }
        self.bytes = self.bytes + len;
        forget(&mut self.order, index);
        self.order.push_back(index);
        assert(self@.chunks =~= chunks);
        while self.bytes > CACHE_CAPACITY_BYTES
            invariant
                self.order@.no_duplicates(),
                forall|other: u64| #[trigger]
                    self.order@.contains(other) <==> self@.chunks.contains_key(other),
                forall|other: u64| #[trigger]
                    self@.chunks.contains_key(other) ==> chunks.contains_key(other)
                        && self@.chunks[other] == chunks[other],
                self.bytes == total(chunks, self.order@),
                survivors(chunks, self.order@) == survivors(chunks, order),
                self@.loading == before.loading.remove(index),
            decreases self.order@.len(),
        {
            let ghost old_order = self.order@;
            let ghost old_chunks = self@.chunks;
            assert(old_order.len() > 0);
            proof {
                total_from_front(chunks, old_order);
            }
            if let Some(oldest) = self.order.pop_front() {
                assert(old_order.contains(oldest));
                assert(self.order@ =~= old_order.drop_first());
                if let Some(evicted) = self.entries.remove(&oldest) {
                    assert(evicted@ == old_chunks[oldest]);
                    self.bytes = self.bytes - evicted.len();
                }
                assert(self@.chunks =~= old_chunks.remove(oldest));
                proof {
                    rest_of_order(old_order);
                }
            }
        }
        proof {
            total_of_same(self@.chunks, chunks, self.order@);
            assert forall|other: u64| self.order@.to_set().contains(other)
                <==> self@.chunks.contains_key(other) by {
                assert(self.order@.contains(other) <==> self@.chunks.contains_key(other));
            }
            assert(self@.chunks =~= chunks.restrict(self.order@.to_set()));
        }
        Ok(chunk)
    }
}

/// What is left of an order of use without its first place.
proof fn rest_of_order(order: Seq<u64>)
    requires
        order.no_duplicates(),
        order.len() > 0,
    ensures
        order.drop_first().no_duplicates(),
        forall|index: u64| #[trigger]
            order.drop_first().contains(index) <==> order.contains(index) && index != order[0],
{
    let rest = order.drop_first();
    assert forall|index: u64| #[trigger]
        rest.contains(index) <==> order.contains(index) && index != order[0] by {
        if rest.contains(index) {
            let i = choose|i: int| 0 <= i < rest.len() && rest[i] == index;
            assert(order[i + 1] == index);
        }
        if order.contains(index) && index != order[0] {
            let i = choose|i: int| 0 <= i < order.len() && order[i] == index;
            assert(rest[i - 1] == index);
        }
    }
}

impl Default for CacheState {
    /// The empty cache.
    fn default() -> (state: Self)
        ensures
            state.wf(),
            state@ == CacheView::empty(),
    {
        let state = CacheState {
            entries: HashMap::new(),
            order: VecDeque::new(),
            loading: HashSet::new(),
            bytes: 0,
        };
        assert(state@ =~= CacheView::empty());
        state
    }
}

/// A cache of chunks that loads what it does not hold.
pub struct ChunkCache {
    state: CacheState,
}

impl View for ChunkCache {
    type V = CacheView;

    closed spec fn view(&self) -> CacheView {
        self.state@
    }
}

/// What a loader gave for a chunk that was not cached, and what became of the cache.
pub open spec fn filled(
    before: CacheView,
    after: CacheView,
    index: u64,
    loaded: Result<SecretBytes, CryptoError>,
    outcome: Result<(Arc<SecretBytes>, bool), CryptoError>,
) -> bool {
    match loaded {
        Ok(chunk) => {
            &&& outcome matches Ok((shared, hit)) && shared@ == chunk@ && !hit
            &&& after == before.loaded(index, chunk@)
        },
        Err(error) => {
            &&& outcome == Err::<(Arc<SecretBytes>, bool), CryptoError>(error)
            &&& after == before
        },
    }
}

impl ChunkCache {
    /// Whether the cache is in order, and nothing is being loaded.
    pub closed spec fn wf(&self) -> bool {
        self.state.wf() && self.state@.loading == Set::<u64>::empty()
    }

    /// The chunk at a place, and whether it was cached. The loader is called only where it was
    /// not: where it was, the loader may be one that must not be called.
    pub fn get_or_load<F: FnOnce() -> Result<SecretBytes, CryptoError>>(
        &mut self,
        index: u64,
        loader: F,
    ) -> (outcome: Result<(Arc<SecretBytes>, bool), CryptoError>)
        requires
            old(self).wf(),
            !old(self)@.chunks.contains_key(index) ==> loader.requires(()),
        ensures
            final(self).wf(),
            final(self)@.wf(),
            if old(self)@.chunks.contains_key(index) {
                &&& outcome matches Ok((chunk, hit)) && chunk@ == old(self)@.chunks[index] && hit
                &&& final(self)@ == old(self)@.asked(index)
            } else {
                exists|loaded: Result<SecretBytes, CryptoError>|
                    {
                        &&& #[trigger] loader.ensures((), loaded)
                        &&& filled(old(self)@, final(self)@, index, loaded, outcome)
                    }
            },
    {
        let ghost before = self.state@;
        match self.state.lookup(index) {
            Lookup::Hit(chunk) => Ok((chunk, true)),
            Lookup::Wait => {
                assert(false);
                Err(CryptoError::new("影片快取等待失敗"))
            },
            Lookup::Load => {
                let loaded = loader();
                let ghost answer = loaded;
                let outcome = match self.state.complete(index, loaded) {
                    Ok(chunk) => Ok((chunk, false)),
                    Err(error) => Err(error),
                };
                proof {
                    assert(before.asked(index).loading.remove(index) =~= before.loading);
                    assert(before.loading.remove(index) =~= before.loading);
                    assert(loader.ensures((), answer));
                    assert(filled(before, self@, index, answer, outcome));
                }
                outcome
            },
        }
    }
}

impl Default for ChunkCache {
    /// The empty cache.
    fn default() -> (cache: Self)
        ensures
            cache.wf(),
            cache@ == CacheView::empty(),
    {
        ChunkCache { state: CacheState::default() }
    }
}

/// The chunks that stay are the ones that were used last, they fit, and no more of them would.
pub proof fn survivors_were_used_last(chunks: Map<u64, Seq<u8>>, order: Seq<u64>)
    ensures
        ({
            let kept = survivors(chunks, order);
            let gone = order.len() - kept.len();
            &&& gone >= 0
            &&& kept == order.skip(gone)
            &&& total(chunks, kept) <= CACHE_CAPACITY_BYTES
            &&& forall|i: int|
                0 <= i < gone ==> total(chunks, #[trigger] order.skip(i)) > CACHE_CAPACITY_BYTES
        }),
    decreases order.len(),
{
    if order.len() == 0 || total(chunks, order) <= CACHE_CAPACITY_BYTES {
        assert(order.skip(0) =~= order);
    } else {
        let rest = order.drop_first();
        survivors_were_used_last(chunks, rest);
        let kept = survivors(chunks, order);
        let gone = order.len() - kept.len();
        assert(rest.skip(gone - 1) =~= order.skip(gone));
        assert forall|i: int| 0 <= i < gone implies total(chunks, #[trigger] order.skip(i))
            > CACHE_CAPACITY_BYTES by {
            if i == 0 {
                assert(order.skip(0) =~= order);
            } else {
                assert(rest.skip(i - 1) =~= order.skip(i));
            }
        }
    }
}

/// Every operation keeps the cache in order and within its capacity.
pub proof fn cache_stays_in_order(cache: CacheView, index: u64, chunk: Seq<u8>)
    requires
        cache.wf(),
    ensures
        cache.asked(index).wf(),
        cache.loaded(index, chunk).wf(),
        cache.not_loaded(index).wf(),
{
    if cache.chunks.contains_key(index) {
        assert(cache.order.contains(index));
        touched_keeps(cache.chunks, cache.order, index);
    }
    let chunks = cache.chunks.insert(index, chunk);
    let order = touched(cache.order, index);
    touched_keeps(chunks, cache.order, index);
    survivors_were_used_last(chunks, order);
    let new = cache.loaded(index, chunk);
    let gone = order.len() - new.order.len();
    assert forall|other: u64| #[trigger]
        new.order.contains(other) <==> new.chunks.contains_key(other) by {
        assert(new.order.to_set().contains(other) <==> new.order.contains(other));
        if new.order.contains(other) {
            let i = choose|i: int| 0 <= i < new.order.len() && new.order[i] == other;
            assert(order[i + gone] == other);
            assert(order.contains(other));
            assert(cache.order.contains(other) <==> cache.chunks.contains_key(other));
        }
    }
    total_of_same(chunks, new.chunks, new.order);
}

/// A chunk that was loaded is cached, if it fits at all, and the next look finds it as it was.
pub proof fn loaded_chunk_is_found(cache: CacheView, index: u64, chunk: Seq<u8>)
    requires
        cache.wf(),
        chunk.len() <= CACHE_CAPACITY_BYTES,
    ensures
        cache.loaded(index, chunk).chunks.contains_key(index),
        cache.loaded(index, chunk).chunks[index] == chunk,
        cache.loaded(index, chunk).order.last() == index,
{
    let chunks = cache.chunks.insert(index, chunk);
    let order = touched(cache.order, index);
    let kept = survivors(chunks, order);
    survivors_were_used_last(chunks, order);
    let gone = order.len() - kept.len();
    let last = order.skip(order.len() - 1);
    assert(last =~= seq![index]);
    assert(last.drop_last() =~= Seq::<u64>::empty());
    assert(total(chunks, last.drop_last()) == 0);
    assert(total(chunks, last) == chunk.len());
    assert(gone < order.len()) by {
        if gone == order.len() {
            assert(total(chunks, order.skip(order.len() - 1)) > CACHE_CAPACITY_BYTES);
        }
    }
    assert(kept[kept.len() - 1] == index);
    assert(kept.contains(index));
    assert(kept.to_set().contains(index));
}

/// The number of bytes of some chunks adds up: that of two runs of chunks is the sum of theirs,
/// and that of one chunk is its length.
pub proof fn totals_add_up(
    chunks: Map<u64, Seq<u8>>,
    order1: Seq<u64>,
    order2: Seq<u64>,
    index: u64,
)
    ensures
        total(chunks, order1 + order2) == total(chunks, order1) + total(chunks, order2),
        total(chunks, seq![index]) == chunks[index].len(),
        total(chunks, Seq::empty()) == 0,
    decreases order2.len(),
{
    assert(seq![index].drop_last() =~= Seq::<u64>::empty());
    assert(total(chunks, seq![index].drop_last()) == 0);
    if order2.len() == 0 {
        assert(order1 + order2 =~= order1);
    } else {
        totals_add_up(chunks, order1, order2.drop_last(), index);
        assert((order1 + order2).drop_last() =~= order1 + order2.drop_last());
    }
}

/// A place that is used comes last in the order of use, and the others stay in their order.
pub proof fn used_place_comes_last(before: Seq<u64>, index: u64, after: Seq<u64>)
    requires
        !before.contains(index),
        !after.contains(index),
    ensures
        touched(before + seq![index] + after, index) == before + after + seq![index],
        touched(before, index) == before + seq![index],
{
    kept_without(before, index);
    kept_without(after, index);
    reveal(Seq::filter);
    let one = seq![index];
    assert(one.drop_last() =~= Seq::<u64>::empty());
    kept_without(one.drop_last(), index);
    assert(without(one, index) =~= Seq::<u64>::empty());
    without_joins(before, one, index);
    without_joins(before + one, after, index);
    assert(touched(before + one + after, index) =~= before + after + one);
    assert(touched(before, index) =~= before + one);
}

proof fn without_joins(order1: Seq<u64>, order2: Seq<u64>, index: u64)
    ensures
        without(order1 + order2, index) == without(order1, index) + without(order2, index),
    decreases order2.len(),
{
    reveal(Seq::filter);
    if order2.len() == 0 {
        assert(order1 + order2 =~= order1);
        assert(without(order1, index) + without(order2, index) =~= without(order1, index));
    } else {
        without_joins(order1, order2.drop_last(), index);
        assert((order1 + order2).drop_last() =~= order1 + order2.drop_last());
        assert(without(order1 + order2, index) =~= without(order1, index) + without(order2, index));
    }
}

proof fn kept_without(order: Seq<u64>, index: u64)
    requires
        !order.contains(index),
    ensures
        without(order, index) == order,
    decreases order.len(),
{
    reveal(Seq::filter);
    if order.len() > 0 {
        let rest = order.drop_last();
        assert(order[order.len() - 1] != index);
        assert(!rest.contains(index)) by {
            if rest.contains(index) {
                let i = choose|i: int| 0 <= i < rest.len() && rest[i] == index;
                assert(order[i] == index);
            }
        }
        kept_without(rest, index);
        assert(rest.push(order.last()) =~= order);
    } else {
        assert(without(order, index) =~= order);
    }
}

/// Asking for a chunk changes no chunk. One that is cached is then the one that was used last;
/// one that is not counts as being loaded, and the order of use stays.
pub proof fn asking_changes_no_chunk(cache: CacheView, index: u64, other: u64)
    ensures
        cache.asked(index).chunks == cache.chunks,
        cache.chunks.contains_key(index) ==> {
            &&& cache.asked(index).order.last() == index
            &&& cache.asked(index).loading == cache.loading
        },
        !cache.chunks.contains_key(index) ==> {
            &&& cache.asked(index).order == cache.order
            &&& cache.asked(index).loading.contains(other) <==> other == index
                || cache.loading.contains(other)
        },
        cache.not_loaded(index).chunks == cache.chunks,
        cache.not_loaded(index).order == cache.order,
        cache.not_loaded(index).loading.contains(other) <==> other != index
            && cache.loading.contains(other),
{
}

/// A chunk that is loaded changes no other: what is still cached is as it was, and what was not
/// cached still is not. Where everything fits into 8 MiB, everything stays. What has to go are
/// the chunks that were used longest ago: one goes only together with every chunk that was used
/// before it, and only if it would not fit together with those that were used after it.
pub proof fn loading_evicts_the_oldest(cache: CacheView, index: u64, chunk: Seq<u8>, other: u64)
    requires
        cache.wf(),
        other != index,
    ensures
        ({
            let after = cache.loaded(index, chunk);
            let order = touched(cache.order, index);
            let gone = order.len() - after.order.len();
            &&& after.chunks.contains_key(other) ==> cache.chunks.contains_key(other)
                && after.chunks[other] == cache.chunks[other]
            &&& after.loading == cache.loading.remove(index)
            &&& total(cache.chunks.insert(index, chunk), order) <= 8388608 ==> after.order == order
                && after.chunks == cache.chunks.insert(index, chunk)
            &&& 0 <= gone
            &&& after.order == order.skip(gone)
            &&& total(after.chunks, after.order) <= 8388608
            &&& gone > 0 ==> total(
                cache.chunks.insert(index, chunk),
                order.skip(gone - 1),
            ) > 8388608
        }),
{
    let after = cache.loaded(index, chunk);
    let chunks = cache.chunks.insert(index, chunk);
    let order = touched(cache.order, index);
    cache_stays_in_order(cache, index, chunk);
    survivors_were_used_last(chunks, order);
    touched_keeps(chunks, cache.order, index);
    let gone = order.len() - after.order.len();
    if gone > 0 {
        assert(total(chunks, order.skip(gone - 1)) > CACHE_CAPACITY_BYTES);
    }
    if total(chunks, order) <= 8388608 {
        assert(order.skip(0) =~= order);
        assert(after.order == order);
        assert forall|place: u64|
            order.to_set().contains(place) <==> chunks.contains_key(place) by {
            assert(order.contains(place) <==> cache.order.contains(place) || place == index);
            assert(cache.order.contains(place) <==> cache.chunks.contains_key(place));
        }
        assert(after.chunks =~= chunks);
    }
}

/// A chunk that was not cached is what its loader gave, and is told to be new; what the loader
/// failed with is returned, and then the cache is as it was.
pub proof fn loader_decides(
    before: CacheView,
    after: CacheView,
    index: u64,
    loaded: Result<SecretBytes, CryptoError>,
    outcome: Result<(Arc<SecretBytes>, bool), CryptoError>,
)
    requires
        filled(before, after, index, loaded, outcome),
    ensures
        loaded is Ok <==> outcome is Ok,
        outcome matches Ok((chunk, hit)) ==> chunk@ == loaded->Ok_0@ && !hit,
        outcome matches Err(error) ==> error == loaded->Err_0 && after == before,
        loaded is Ok && before.wf() && loaded->Ok_0@.len() <= 8388608 ==> {
            &&& after.chunks.contains_key(index)
            &&& after.chunks[index] == loaded->Ok_0@
        },
{
    if loaded is Ok && before.wf() && loaded->Ok_0@.len() <= 8388608 {
        loaded_chunk_is_found(before, index, loaded->Ok_0@);
    }
}

/// A cache that is empty holds nothing, loads nothing, and is in order.
pub proof fn empty_cache_holds_nothing(index: u64)
    ensures
        CacheView::empty().wf(),
        !CacheView::empty().chunks.contains_key(index),
        !CacheView::empty().loading.contains(index),
        CacheView::empty().order.len() == 0,
{
}

} // verus!
