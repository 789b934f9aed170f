//! Tracks and the bounded queues they wait in.
use arraydeque::ArrayDeque;
use vstd::prelude::*;

verus! {

/// How many tracks one queue holds at most.
pub const MUSIC_QUEUE_LIMIT: usize = 100;

/// What is known of a track.
#[derive(Debug)]
pub struct Info {
    pub is_seekable: bool,
    pub is_stream: bool,
    pub identifier: String,
    pub author: String,
    /// Length in milliseconds.
    pub length: u64,
    /// Position in milliseconds.
    pub position: u64,
    pub title: String,
    pub uri: String,
}

impl Clone for Info {
    fn clone(&self) -> (r: Self)
        ensures
            r == *self,
    {
        Info {
            is_seekable: self.is_seekable,
            is_stream: self.is_stream,
            identifier: self.identifier.clone(),
            author: self.author.clone(),
            length: self.length,
            position: self.position,
            title: self.title.clone(),
            uri: self.uri.clone(),
        }
    }
}

/// A playable track: the back end's own encoding of it, with what is known of it.
#[derive(Debug)]
pub struct Track {
    pub track: String,
    pub info: Option<Info>,
}

impl Clone for Track {
    fn clone(&self) -> (r: Self)
        ensures
            r == *self,
    {
        Track {
            track: self.track.clone(),
            info: match &self.info {
                Some(info) => Some(info.clone()),
                None => None,
            },
        }
    }
}

/// A double-ended queue of at most [`MUSIC_QUEUE_LIMIT`] tracks.
#[verifier::external_body]
pub struct TrackQueue {
    inner: ArrayDeque<[Track; MUSIC_QUEUE_LIMIT]>,
}

/// The tracks in a queue, front first.
pub uninterp spec fn queued_tracks(q: TrackQueue) -> Seq<Track>;

impl View for TrackQueue {
    type V = Seq<Track>;

    open spec fn view(&self) -> Seq<Track> {
        queued_tracks(*self)
    }
}

impl TrackQueue {
    /// `ArrayDeque::new`: an empty queue.
    #[verifier::external_body]
    pub(crate) fn new() -> (q: Self)
        ensures
            queued_tracks(q) == Seq::<Track>::empty(),
    {
        TrackQueue { inner: ArrayDeque::new() }
    }

    /// `ArrayDeque::len`: the number of tracks, which never exceeds the limit.
    #[verifier::external_body]
    pub(crate) fn len(&self) -> (n: usize)
        ensures
            n == queued_tracks(*self).len(),
            n <= MUSIC_QUEUE_LIMIT,
    {
        self.inner.len()
    }

    /// `ArrayDeque::push_front`: puts the track first, or hands it back where the queue is full.
    #[verifier::external_body]
    pub(crate) fn push_front(&mut self, track: Track) -> (r: Result<(), Track>)
        ensures
            r is Ok <==> queued_tracks(*old(self)).len() < MUSIC_QUEUE_LIMIT,
            r is Ok ==> queued_tracks(*final(self)) == seq![track] + queued_tracks(*old(self)),
            r matches Err(t) ==> t == track && queued_tracks(*final(self)) == queued_tracks(
                *old(self),
            ),
    {
        self.inner.push_front(track).map_err(|e| e.element)
    }

    /// `ArrayDeque::push_back`: puts the track last, or hands it back where the queue is full.
    #[verifier::external_body]
    pub(crate) fn push_back(&mut self, track: Track) -> (r: Result<(), Track>)
        ensures
            r is Ok <==> queued_tracks(*old(self)).len() < MUSIC_QUEUE_LIMIT,
            r is Ok ==> queued_tracks(*final(self)) == queued_tracks(*old(self)).push(track),
            r matches Err(t) ==> t == track && queued_tracks(*final(self)) == queued_tracks(
                *old(self),
            ),
    {
        self.inner.push_back(track).map_err(|e| e.element)
    }

    /// `ArrayDeque::pop_front`: takes the first track out, if there is one.
    #[verifier::external_body]
    pub(crate) fn pop_front(&mut self) -> (r: Option<Track>)
        ensures
            r is Some <==> queued_tracks(*old(self)).len() > 0,
            r matches Some(t) ==> t == queued_tracks(*old(self)).first() && queued_tracks(
                *final(self),
            ) == queued_tracks(*old(self)).drop_first(),
            r is None ==> queued_tracks(*final(self)) == queued_tracks(*old(self)),
    {
        self.inner.pop_front()
    }

    /// `ArrayDeque::pop_back`: takes the last track out, if there is one.
    #[verifier::external_body]
    pub(crate) fn pop_back(&mut self) -> (r: Option<Track>)
        ensures
            r is Some <==> queued_tracks(*old(self)).len() > 0,
            r matches Some(t) ==> t == queued_tracks(*old(self)).last() && queued_tracks(
                *final(self),
            ) == queued_tracks(*old(self)).drop_last(),
            r is None ==> queued_tracks(*final(self)) == queued_tracks(*old(self)),
    {
        self.inner.pop_back()
    }

    /// `ArrayDeque::clear`: takes all tracks out.
    #[verifier::external_body]
    pub(crate) fn clear(&mut self)
        ensures
            queued_tracks(*final(self)) == Seq::<Track>::empty(),
    {
        self.inner.clear()
    }

    /// `ArrayDeque::get`: the track at a place counted from the front, if the queue reaches there.
    #[verifier::external_body]
    pub(crate) fn get(&self, index: usize) -> (r: Option<&Track>)
        ensures
            r is Some <==> index < queued_tracks(*self).len(),
            r matches Some(t) ==> *t == queued_tracks(*self)[index as int],
    {
        self.inner.get(index)
    }

    /// A queue of the given tracks, front first, as far as they fit.
    pub fn from_tracks(tracks: &Vec<Track>) -> (q: TrackQueue)
        ensures
            q@ == tracks@.take(
                if tracks@.len() <= MUSIC_QUEUE_LIMIT {
                    tracks@.len() as int
                } else {
                    MUSIC_QUEUE_LIMIT as int
                },
            ),
    {
        let mut q = TrackQueue::new();
        let mut i: usize = 0;
        assert(q@ =~= tracks@.take(0));
        while i < tracks.len() && i < MUSIC_QUEUE_LIMIT
            invariant
                i <= tracks@.len(),
                i <= MUSIC_QUEUE_LIMIT,
                q@ == tracks@.take(i as int),
            decreases tracks.len() - i,
        {
            let _ = q.push_back(tracks[i].clone());
            i += 1;
            assert(q@ =~= tracks@.take(i as int));
        }
        q
    }

    /// The tracks, front first.
    pub fn to_vec(&self) -> (v: Vec<Track>)
        ensures
            v@ == self@,
    {
        let mut v: Vec<Track> = Vec::new();
        let n: usize = self.len();
        while v.len() < n
            invariant
                v@.len() <= n,
                n == self@.len(),
                v@ == self@.take(v@.len() as int),
            decreases n - v.len(),
        {
            if let Some(t) = self.get(v.len()) {
                v.push(t.clone());
            }
            assert(v@ =~= self@.take(v@.len() as int));
        }
        assert(v@ =~= self@);
        v
    }

    /// Whether no further track fits.
    pub fn is_full(&self) -> (r: bool)
        ensures
            r == (self@.len() == MUSIC_QUEUE_LIMIT),
            self@.len() <= MUSIC_QUEUE_LIMIT,
    {
        self.len() == MUSIC_QUEUE_LIMIT
    }

    /// Whether there is no track.
    pub fn is_empty(&self) -> (r: bool)
        ensures
            r == (self@.len() == 0),
    {
        self.len() == 0
    }
}

impl Clone for TrackQueue {
    /// `ArrayDeque::clone`: a queue of the same tracks in the same order, each cloned by
    /// [`Track::clone`].
    #[verifier::external_body]
    fn clone(&self) -> (r: Self)
        ensures
            queued_tracks(r) == queued_tracks(*self),
    {
        TrackQueue { inner: self.inner.clone() }
    }
}

} // verus!
