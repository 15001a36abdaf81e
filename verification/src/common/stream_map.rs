//! The streams of a connection, ordered by identifier.

use crate::common::stream::{HttpStreamCommon, StreamView};
use crate::solicit::stream_id::StreamId;
use vstd::prelude::*;

verus! {

/// The position of the stream with the given identifier, if there is one.
pub open spec fn spec_index_of(streams: Seq<StreamView>, id: StreamId) -> Option<int>
    decreases streams.len(),
{
    if streams.len() == 0 {
        None
    } else if streams.last().stream_id == id {
        Some(streams.len() - 1)
    } else {
        spec_index_of(streams.drop_last(), id)
    }
}

/// How many streams at the front have a smaller identifier: where a stream
/// with this identifier goes.
pub open spec fn spec_insert_pos(streams: Seq<StreamView>, id: StreamId) -> int
    decreases streams.len(),
{
    if streams.len() == 0 || streams[0].stream_id >= id {
        0
    } else {
        1 + spec_insert_pos(streams.skip(1), id)
    }
}

/// Whether the identifiers go up strictly.
pub open spec fn spec_sorted(streams: Seq<StreamView>) -> bool {
    forall|i: int, j: int|
        0 <= i < j < streams.len() ==> (#[trigger] streams[i]).stream_id < (
        #[trigger] streams[j]).stream_id
}

/// The identifiers of the streams that have something for the writer, in
/// order.
pub open spec fn spec_writable_ids(streams: Seq<StreamView>) -> Seq<StreamId>
    decreases streams.len(),
{
    if streams.len() == 0 {
        Seq::empty()
    } else if streams.last().is_writable() {
        spec_writable_ids(streams.drop_last()).push(streams.last().stream_id)
    } else {
        spec_writable_ids(streams.drop_last())
    }
}

/// The position that `spec_index_of` gives holds the identifier asked for,
/// and where it gives none, no stream has the identifier.
pub proof fn lemma_index_of(streams: Seq<StreamView>, id: StreamId)
    ensures
        match spec_index_of(streams, id) {
            Some(i) => 0 <= i < streams.len() && streams[i].stream_id == id,
            None => forall|k: int| 0 <= k < streams.len() ==> (#[trigger] streams[k]).stream_id != id,
        },
    decreases streams.len(),
{
    if streams.len() > 0 && streams.last().stream_id != id {
        lemma_index_of(streams.drop_last(), id);
        assert forall|k: int| 0 <= k < streams.len() && spec_index_of(streams, id) is None implies (
        #[trigger] streams[k]).stream_id != id by {
            if k < streams.len() - 1 {
                assert(streams.drop_last()[k] == streams[k]);
            }
        }
    }
}

/// In an ordered map, the position of a stream is where its identifier is
/// found.
pub proof fn lemma_index_of_sorted(streams: Seq<StreamView>, i: int)
    requires
        spec_sorted(streams),
        0 <= i < streams.len(),
    ensures
        spec_index_of(streams, streams[i].stream_id) == Some(i),
    decreases streams.len(),
{
    if i < streams.len() - 1 {
        assert(streams[i].stream_id < streams.last().stream_id);
        let front = streams.drop_last();
        assert forall|a: int, b: int| 0 <= a < b < front.len() implies (#[trigger] front[a]).stream_id
            < (#[trigger] front[b]).stream_id by {
            assert(front[a] == streams[a] && front[b] == streams[b]);
        }
        assert(front[i] == streams[i]);
        lemma_index_of_sorted(front, i);
    }
}

/// Every writable identifier is that of a stream of the map, and the
/// writable identifiers of an ordered map go up strictly.
pub proof fn lemma_writable_ids(streams: Seq<StreamView>)
    requires
        spec_sorted(streams),
    ensures
        forall|k: int|
            0 <= k < spec_writable_ids(streams).len() ==> spec_index_of(
                streams,
                #[trigger] spec_writable_ids(streams)[k],
            ) is Some,
        forall|a: int, b: int|
            0 <= a < b < spec_writable_ids(streams).len() ==> (#[trigger] spec_writable_ids(
                streams,
            )[a]) < (#[trigger] spec_writable_ids(streams)[b]),
        streams.len() > 0 ==> forall|k: int|
            0 <= k < spec_writable_ids(streams).len() ==> (#[trigger] spec_writable_ids(
                streams,
            )[k]) <= streams.last().stream_id,
    decreases streams.len(),
{
    if streams.len() > 0 {
        let front = streams.drop_last();
        assert forall|a: int, b: int| 0 <= a < b < front.len() implies (#[trigger] front[a]).stream_id
            < (#[trigger] front[b]).stream_id by {
            assert(front[a] == streams[a] && front[b] == streams[b]);
        }
        lemma_writable_ids(front);
        let ids = spec_writable_ids(streams);
        let front_ids = spec_writable_ids(front);
        assert forall|k: int| 0 <= k < ids.len() implies spec_index_of(streams, #[trigger] ids[k])
            is Some && ids[k] <= streams.last().stream_id by {
            if k < front_ids.len() {
                assert(ids[k] == front_ids[k]);
                lemma_index_of(front, ids[k]);
                let p = spec_index_of(front, ids[k])->Some_0;
                assert(front[p] == streams[p]);
                assert(streams[p].stream_id < streams.last().stream_id);
            }
        }
        assert forall|a: int, b: int| 0 <= a < b < ids.len() implies (#[trigger] ids[a]) < (
        #[trigger] ids[b]) by {
            if b < front_ids.len() {
                assert(ids[a] == front_ids[a] && ids[b] == front_ids[b]);
            } else {
                assert(ids[a] == front_ids[a]);
                lemma_index_of(front, ids[a]);
                let p = spec_index_of(front, ids[a])->Some_0;
                assert(front[p] == streams[p]);
                assert(streams[p].stream_id < streams.last().stream_id);
            }
        }
    }
}

/// The streams of a connection. `H` is the type of the streams' handlers.
pub struct StreamMap<H> {
    /// The streams, by rising identifier.
    pub streams: Vec<HttpStreamCommon<H>>,
}

impl<H> View for StreamMap<H> {
    type V = Seq<StreamView>;

    open spec fn view(&self) -> Seq<StreamView> {
        Seq::new(self.streams@.len(), |i: int| self.streams@[i]@)
    }
}

impl<H> StreamMap<H> {
    /// The streams are ordered by identifier, so that no identifier occurs
    /// twice, and each stream is well formed.
    pub open spec fn wf(&self) -> bool {
        &&& spec_sorted(self@)
        &&& forall|i: int| 0 <= i < self@.len() ==> (#[trigger] self@[i]).wf()
    }

    /// Whether the map holds a stream with the given identifier.
    pub open spec fn contains(&self, id: StreamId) -> bool {
        spec_index_of(self@, id) is Some
    }

    /// An empty map.
    pub fn new() -> (r: StreamMap<H>)
        ensures
            r@ == Seq::<StreamView>::empty(),
            r.wf(),
    {
        let r = StreamMap { streams: Vec::new() };
        assert(r@ =~= Seq::<StreamView>::empty());
        r
    }

    /// The number of streams.
    pub fn len(&self) -> (n: usize)
        ensures
            n == self@.len(),
    {
        self.streams.len()
    }

    /// Whether the map holds no stream.
    pub fn is_empty(&self) -> (r: bool)
        ensures
            r == (self@.len() == 0),
    {
        self.streams.len() == 0
    }

    /// The position of the stream with the given identifier.
    pub fn find(&self, id: StreamId) -> (r: Option<usize>)
        ensures
            match r {
                Some(i) => spec_index_of(self@, id) == Some(i as int) && i < self@.len()
                    && self@[i as int].stream_id == id,
                None => spec_index_of(self@, id) is None,
            },
    {
        let mut i: usize = self.streams.len();
        proof {
            assert(self@.take(self@.len() as int) =~= self@);
            lemma_index_of(self@, id);
        }
        while i > 0
            invariant
                i <= self@.len(),
                spec_index_of(self@, id) == spec_index_of(self@.take(i as int), id),
            decreases i,
        {
            let ghost part = self@.take(i as int);
            assert(part.last() == self@[i - 1]);
            assert(part.drop_last() =~= self@.take(i - 1));
            if self.streams[i - 1].stream_id == id {
                return Some(i - 1);
            }
            i = i - 1;
        }
        None
    }

    /// The stream with the given identifier.
    pub fn get(&self, id: StreamId) -> (r: Option<&HttpStreamCommon<H>>)
        ensures
            match r {
                Some(stream) => spec_index_of(self@, id) matches Some(i) && stream@ == self@[i]
                    && *stream == self.streams@[i],
                None => spec_index_of(self@, id) is None,
            },
    {
        match self.find(id) {
            Some(i) => Some(&self.streams[i]),
            None => None,
        }
    }

    /// Puts a stream into the map, at the place of its identifier. The map
    /// must not hold a stream with that identifier yet.
    pub fn insert(&mut self, stream: HttpStreamCommon<H>)
        requires
            old(self).wf(),
            stream@.wf(),
            !old(self).contains(stream.stream_id),
        ensures
            final(self).wf(),
            final(self)@ == old(self)@.insert(
                spec_insert_pos(old(self)@, stream.stream_id),
                stream@,
            ),
            final(self).streams@ == old(self).streams@.insert(
                spec_insert_pos(old(self)@, stream.stream_id),
                stream,
            ),
            0 <= spec_insert_pos(old(self)@, stream.stream_id) <= old(self)@.len(),
    {
        let id: StreamId = stream.stream_id;
        let ghost views = self@;
        let mut i: usize = 0;
        proof {
            assert(views.skip(0) =~= views);
            lemma_index_of(views, id);
        }
        while i < self.streams.len() && self.streams[i].stream_id < id
            invariant
                views == self@,
                self.streams == old(self).streams,
                i <= views.len(),
                spec_insert_pos(views, id) == i + spec_insert_pos(views.skip(i as int), id),
                forall|k: int| 0 <= k < i ==> (#[trigger] views[k]).stream_id < id,
            decreases views.len() - i,
        {
            assert(views.skip(i as int)[0] == views[i as int]);
            assert(views.skip(i as int).skip(1) =~= views.skip(i + 1));
            i = i + 1;
        }
        proof {
            if i < views.len() {
                assert(views.skip(i as int)[0] == views[i as int]);
                assert(views[i as int].stream_id != id);
            }
            assert(spec_insert_pos(views, id) == i);
        }
        let ghost view = stream@;
        self.streams.insert(i, stream);
        proof {
            let after = self@;
            assert(after =~= views.insert(i as int, view));
            assert forall|a: int, b: int| 0 <= a < b < after.len() implies (#[trigger] after[a]).stream_id
                < (#[trigger] after[b]).stream_id by {
                let ka = if a < i {
                    a
                } else {
                    a - 1
                };
                let kb = if b < i {
                    b
                } else {
                    b - 1
                };
                if a != i && b != i {
                    assert(after[a] == views[ka] && after[b] == views[kb]);
                } else if a == i {
                    assert(after[b] == views[kb]);
                    assert(views[i as int].stream_id <= views[kb].stream_id);
                } else {
                    assert(after[a] == views[ka]);
                }
            }
            assert forall|k: int| 0 <= k < after.len() implies (#[trigger] after[k]).wf() by {
                if k < i {
                    assert(after[k] == views[k]);
                } else if k > i {
                    assert(after[k] == views[k - 1]);
                }
            }
        }
    }

    /// Takes the stream at the given position out of the map.
    pub fn remove_at(&mut self, i: usize) -> (r: HttpStreamCommon<H>)
        requires
            old(self).wf(),
            i < old(self)@.len(),
        ensures
            final(self).wf(),
            final(self)@ == old(self)@.remove(i as int),
            final(self).streams@ == old(self).streams@.remove(i as int),
            r == old(self).streams@[i as int],
    {
        let ghost views = self@;
        let r = self.streams.remove(i);
        proof {
            let after = self@;
            assert(after =~= views.remove(i as int));
            assert forall|a: int, b: int| 0 <= a < b < after.len() implies (#[trigger] after[a]).stream_id
                < (#[trigger] after[b]).stream_id by {
                let ka = if a < i {
                    a
                } else {
                    a + 1
                };
                let kb = if b < i {
                    b
                } else {
                    b + 1
                };
                assert(after[a] == views[ka] && after[b] == views[kb]);
            }
            assert forall|k: int| 0 <= k < after.len() implies (#[trigger] after[k]).wf() by {
                let kk = if k < i {
                    k
                } else {
                    k + 1
                };
                assert(after[k] == views[kk]);
            }
        }
        r
    }

    /// Takes the stream with the given identifier out of the map.
    pub fn remove(&mut self, id: StreamId) -> (r: Option<HttpStreamCommon<H>>)
        requires
            old(self).wf(),
        ensures
            final(self).wf(),
            match spec_index_of(old(self)@, id) {
                Some(i) => final(self)@ == old(self)@.remove(i) && r == Some(old(self).streams@[i]),
                None => final(self)@ == old(self)@ && r is None,
            },
    {
        match self.find(id) {
            Some(i) => Some(self.remove_at(i)),
            None => None,
        }
    }

    /// The identifiers of the streams that have something for the writer, by
    /// rising identifier.
    pub fn writable_stream_ids(&self) -> (ids: Vec<StreamId>)
        ensures
            ids@ == spec_writable_ids(self@),
    {
        let mut ids: Vec<StreamId> = Vec::new();
        let mut i: usize = 0;
        assert(self@.take(0) =~= Seq::<StreamView>::empty());
        while i < self.streams.len()
            invariant
                i <= self@.len(),
                ids@ == spec_writable_ids(self@.take(i as int)),
            decreases self@.len() - i,
        {
            let ghost part = self@.take(i + 1);
            assert(part.last() == self@[i as int]);
            assert(part.drop_last() =~= self@.take(i as int));
            if self.streams[i].is_writable() {
                ids.push(self.streams[i].stream_id);
            }
            i = i + 1;
        }
        assert(self@.take(self@.len() as int) =~= self@);
        ids
    }
}

} // verus!
