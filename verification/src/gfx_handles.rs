//! A cache of rendered images, kept for two frames: what is used in a frame
//! stays for the next one.

use vstd::prelude::*;
use std::collections::HashMap;

verus! {

broadcast use vstd::std_specs::hash::group_hash_axioms;

/// Images made from indexed images, by the hash of what they were made from.
/// `current` holds what this frame used; `previous` what the frame before used.
pub struct GfxHandles<V> {
    pub current: HashMap<u64, V>,
    pub previous: HashMap<u64, V>,
    pub tick: usize,
}

/// Where a cache finds the image of a hash: this frame's map first, then the
/// previous frame's.
pub open spec fn found<V>(current: Map<u64, V>, previous: Map<u64, V>, hash: u64) -> Option<V> {
    if current.contains_key(hash) {
        Some(current[hash])
    } else if previous.contains_key(hash) {
        Some(previous[hash])
    } else {
        None
    }
}

impl<V: Clone> GfxHandles<V> {
    /// An empty cache.
    pub fn new() -> (r: GfxHandles<V>)
        ensures
            r.current@ == Map::<u64, V>::empty(),
            r.previous@ == Map::<u64, V>::empty(),
            r.tick == 0,
    {
        GfxHandles { current: HashMap::new(), previous: HashMap::new(), tick: 0 }
    }

    /// The image of `hash`, where this frame or the one before made it; one
    /// found in the frame before is kept for this frame too.
    pub fn lookup(&mut self, hash: u64) -> (r: Option<V>)
        ensures
            final(self).tick == old(self).tick,
            final(self).previous@ == old(self).previous@,
            match found(old(self).current@, old(self).previous@, hash) {
                None => r is None && final(self).current@ == old(self).current@,
                Some(v) => r matches Some(h) && cloned(v, h) && if old(self).current@.contains_key(hash) {
                    final(self).current@ == old(self).current@
                } else {
                    exists|k: V| cloned(v, k) && final(self).current@ == old(self).current@.insert(hash, k)
                },
            },
    {
        match self.current.get(&hash) {
            Some(h) => {
                return Some(h.clone());
            },
            None => {},
        }
        let (kept, out) = match self.previous.get(&hash) {
            Some(h) => (h.clone(), h.clone()),
            None => {
                return None;
            },
        };
        let ghost k = kept;
        self.current.insert(hash, kept);
        assert(cloned(old(self).previous@[hash], k));
        Some(out)
    }

    /// Keep a new image of `hash` for this frame.
    pub fn insert(&mut self, hash: u64, image: V)
        ensures
            final(self).current@ == old(self).current@.insert(hash, image),
            final(self).previous@ == old(self).previous@,
            final(self).tick == old(self).tick,
    {
        self.current.insert(hash, image);
    }

    /// The image of `hash` where this frame or the one before made it, else
    /// the one that `make` makes, kept for this frame. The flag says whether
    /// `make` was used; where the image was found it was not. An error of
    /// `make` is handed back and nothing is kept.
    pub fn get_or_create<E, F: FnOnce() -> Result<V, E>>(&mut self, hash: u64, make: F) -> (r: Result<(V, bool), E>)
        requires
            make.requires(()),
        ensures
            final(self).tick == old(self).tick,
            final(self).previous@ == old(self).previous@,
            r is Ok ==> final(self).current@.contains_key(hash),
            r matches Ok((_, made)) ==> made == (found(old(self).current@, old(self).previous@, hash) is None),
            found(old(self).current@, old(self).previous@, hash) matches Some(v) ==> (r matches Ok((h, made))
                && !made && cloned(v, h)),
            found(old(self).current@, old(self).previous@, hash) is Some ==> (if old(self).current@.contains_key(hash) {
                final(self).current@ == old(self).current@
            } else {
                exists|k: V|
                    cloned(found(old(self).current@, old(self).previous@, hash)->0, k) && final(self).current@
                        == old(self).current@.insert(hash, k)
            }),
            found(old(self).current@, old(self).previous@, hash) is None ==> (r matches Ok((h, made)) ==> made
                && make.ensures((), Ok::<V, E>(final(self).current@[hash])) && cloned(final(self).current@[hash], h)
                && final(self).current@ == old(self).current@.insert(hash, final(self).current@[hash])),
            found(old(self).current@, old(self).previous@, hash) is None ==> (r matches Err(e) ==> make.ensures(
                (),
                Err::<V, E>(e),
            ) && final(self).current@ == old(self).current@),
    {
        match self.lookup(hash) {
            Some(h) => Ok((h, false)),
            None => {
                let made = make();
                match made {
                    Ok(m) => {
                        let h = m.clone();
                        let ghost kept = m;
                        assert(made == Ok::<V, E>(kept));
                        self.insert(hash, m);
                        assert(make.ensures((), Ok::<V, E>(kept)) && cloned(kept, h) && self.current@
                            == old(self).current@.insert(hash, kept));
                        Ok((h, true))
                    },
                    Err(e) => Err(e),
                }
            },
        }
    }

    /// A new frame: what this frame used becomes what the frame before used,
    /// and older images are dropped.
    pub fn tick(&mut self)
        requires
            old(self).tick < usize::MAX,
        ensures
            final(self).tick == old(self).tick + 1,
            final(self).previous@ == old(self).current@,
            final(self).current@ == Map::<u64, V>::empty(),
    {
        self.tick = self.tick + 1;
        std::mem::swap(&mut self.current, &mut self.previous);
        self.current.clear();
    }
}

/// An image kept in a frame is found in that frame and in the next, and no
/// longer once a frame passes without it being looked up.
pub proof fn lemma_kept_for_two_frames<V>(current: Map<u64, V>, previous: Map<u64, V>, hash: u64, image: V)
    ensures
        found(current.insert(hash, image), previous, hash) == Some(image),
        found(Map::<u64, V>::empty(), current.insert(hash, image), hash) == Some(image),
        found(Map::<u64, V>::empty(), Map::<u64, V>::empty(), hash) is None,
{
}

/// An image that `get_or_create` keeps in a frame (its `current` then holds
/// the hash) is found by a call in the same frame or in the next, so that
/// call makes no image (its flag is false) and hands out a clone of the kept
/// one; after two frames without a call it is gone, and the next call that
/// succeeds makes exactly one image (its flag is true).
pub proof fn lemma_made_image_reused<V>(current: Map<u64, V>, previous: Map<u64, V>, hash: u64)
    requires
        current.contains_key(hash),
    ensures
        found(current, previous, hash) == Some(current[hash]),
        found(Map::<u64, V>::empty(), current, hash) == Some(current[hash]),
        found(Map::<u64, V>::empty(), Map::<u64, V>::empty(), hash) is None,
{
}

} // verus!
