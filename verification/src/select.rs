//! Choosing among registered entries by key.
//!
//! A viewer registers its strategies, scenes and kernels under keys and
//! switches among them as keys are pressed. A key is its code, a `u32`.

use crate::frame::Colorspace;
use vstd::prelude::*;

verus! {

/// The entries registered under keys, in the order of registration, and the
/// one that is active.
pub struct Selector {
    keys: Vec<u32>,
    active: Option<usize>,
}

/// `at` is the last entry of `keys` that is registered under `key`.
pub open spec fn is_last_match(keys: Seq<u32>, key: u32, at: int) -> bool {
    &&& 0 <= at < keys.len()
    &&& keys[at] == key
    &&& forall|i: int| at < i < keys.len() ==> keys[i] != key
}

/// At most one entry is the last one under a key.
pub proof fn lemma_last_match_is_unique(keys: Seq<u32>, key: u32, a: int, b: int)
    requires
        is_last_match(keys, key, a),
        is_last_match(keys, key, b),
    ensures
        a == b,
{
}

/// Some entry of `keys` is registered under `key`.
pub open spec fn has_match(keys: Seq<u32>, key: u32) -> bool {
    exists|i: int| 0 <= i < keys.len() && keys[i] == key
}

impl Selector {
    /// The keys of the entries, in the order of registration.
    pub closed spec fn spec_keys(&self) -> Seq<u32> {
        self.keys@
    }

    /// The position of the active entry.
    pub closed spec fn spec_active(&self) -> Option<usize> {
        self.active
    }

    /// The active entry, if there is one, is a registered entry. Every
    /// selector that [`Selector::new`] made and the methods changed is so.
    pub closed spec fn wf(&self) -> bool {
        match self.active {
            Some(at) => at < self.keys@.len(),
            None => true,
        }
    }

    /// `active` is the active entry once `key` was pressed: the last entry
    /// registered under `key`, or the entry that was active if there is none.
    pub open spec fn is_pressed(&self, key: u32, active: Option<usize>) -> bool {
        if has_match(self.spec_keys(), key) {
            active.is_some() && is_last_match(self.spec_keys(), key, active.unwrap() as int)
        } else {
            active == self.spec_active()
        }
    }

    /// A selector without entries: nothing is active.
    pub fn new() -> (selector: Self)
        ensures
            selector.wf(),
            selector.spec_keys() == Seq::<u32>::empty(),
            selector.spec_active().is_none(),
    {
        Selector { keys: Vec::new(), active: None }
    }

    /// Registers one more entry under `key` and returns its position. The
    /// first entry that is registered becomes the active one.
    pub fn add(&mut self, key: u32) -> (at: usize)
        requires
            old(self).wf(),
        ensures
            final(self).wf(),
            at == old(self).spec_keys().len(),
            final(self).spec_keys() == old(self).spec_keys().push(key),
            final(self).spec_active() == if old(self).spec_active().is_none() {
                Some(at)
            } else {
                old(self).spec_active()
            },
    {
        let at = self.keys.len();
        self.keys.push(key);
        if self.active.is_none() {
            self.active = Some(at);
        }
        at
    }

    /// The position of the active entry.
    pub fn active(&self) -> (active: Option<usize>)
        requires
            self.wf(),
        ensures
            active == self.spec_active(),
            active matches Some(at) ==> at < self.spec_keys().len(),
    {
        self.active
    }

    /// Takes a key press: the last entry registered under `key` becomes the
    /// active one. Returns whether there is such an entry; if there is none,
    /// the active entry stays.
    pub fn press(&mut self, key: u32) -> (hit: bool)
        requires
            old(self).wf(),
        ensures
            final(self).wf(),
            final(self).spec_keys() == old(self).spec_keys(),
            hit == has_match(old(self).spec_keys(), key),
            old(self).is_pressed(key, final(self).spec_active()),
    {
        let mut hit = false;
        let mut i: usize = 0;
        while i < self.keys.len()
            invariant
                i <= self.keys@.len(),
                self.keys@ == old(self).keys@,
                self.wf(),
                hit == has_match(self.keys@.take(i as int), key),
                hit ==> self.active.is_some() && is_last_match(
                    self.keys@.take(i as int),
                    key,
                    self.active.unwrap() as int,
                ),
                !hit ==> self.active == old(self).active,
            decreases self.keys@.len() - i,
        {
            let ghost seen = self.keys@.take(i as int);
            let ghost next = self.keys@.take(i + 1);
            if self.keys[i] == key {
                self.active = Some(i);
                hit = true;
                proof {
                    assert(next[i as int] == key);
                }
            } else {
                proof {
                    if has_match(next, key) {
                        let j = choose|j: int| 0 <= j < next.len() && next[j] == key;
                        assert(seen[j] == key);
                    }
                    if hit {
                        let at = self.active.unwrap() as int;
                        assert(seen[at] == next[at]);
                        assert forall|j: int| at < j < next.len() implies next[j] != key by {
                            if j < i {
                                assert(seen[j] == next[j]);
                            }
                        }
                    }
                }
            }
            i += 1;
        }
        proof {
            assert(self.keys@.take(i as int) =~= self.keys@);
        }
        hit
    }
}

/// What a viewer chooses among: its strategies, its scenes and its kernels,
/// each under keys, and the colour space of the frame.
pub struct Controls {
    pub rasterizers: Selector,
    pub scenes: Selector,
    pub filters: Selector,
    pub colorspace: Colorspace,
}

impl Controls {
    /// All three selectors are well formed.
    pub open spec fn wf(&self) -> bool {
        self.rasterizers.wf() && self.scenes.wf() && self.filters.wf()
    }

    /// The active strategy, scene and kernel, if there is one of each.
    pub open spec fn spec_ready(&self) -> Option<(usize, usize, usize)> {
        if self.rasterizers.spec_active().is_some() && self.scenes.spec_active().is_some()
            && self.filters.spec_active().is_some() {
            Some(
                (
                    self.rasterizers.spec_active().unwrap(),
                    self.scenes.spec_active().unwrap(),
                    self.filters.spec_active().unwrap(),
                ),
            )
        } else {
            None
        }
    }

    /// Nothing registered yet; frames are shown in sRGB.
    pub fn new() -> (controls: Self)
        ensures
            controls.wf(),
            controls.rasterizers.spec_keys() == Seq::<u32>::empty(),
            controls.scenes.spec_keys() == Seq::<u32>::empty(),
            controls.filters.spec_keys() == Seq::<u32>::empty(),
            controls.spec_ready().is_none(),
            controls.colorspace == Colorspace::Srgb,
    {
        Controls {
            rasterizers: Selector::new(),
            scenes: Selector::new(),
            filters: Selector::new(),
            colorspace: Colorspace::Srgb,
        }
    }

    /// The active strategy, scene and kernel, if there is one of each: what
    /// a frame is rendered with. Each is the position of a registered entry.
    pub fn ready(&self) -> (ready: Option<(usize, usize, usize)>)
        requires
            self.wf(),
        ensures
            ready == self.spec_ready(),
            ready matches Some((r, s, f)) ==> r < self.rasterizers.spec_keys().len() && s
                < self.scenes.spec_keys().len() && f < self.filters.spec_keys().len(),
    {
        match (self.rasterizers.active(), self.scenes.active(), self.filters.active()) {
            (Some(r), Some(s), Some(f)) => Some((r, s, f)),
            _ => None,
        }
    }

    /// Takes a key press. Each selector takes the key; if `toggles`, the key
    /// is also the one that switches the colour space. Returns whether
    /// anything was chosen or switched, so that the frame is to be rendered
    /// again.
    pub fn press(&mut self, key: u32, toggles: bool) -> (render: bool)
        requires
            old(self).wf(),
        ensures
            final(self).wf(),
            final(self).rasterizers.spec_keys() == old(self).rasterizers.spec_keys(),
            final(self).scenes.spec_keys() == old(self).scenes.spec_keys(),
            final(self).filters.spec_keys() == old(self).filters.spec_keys(),
            old(self).rasterizers.is_pressed(key, final(self).rasterizers.spec_active()),
            old(self).scenes.is_pressed(key, final(self).scenes.spec_active()),
            old(self).filters.is_pressed(key, final(self).filters.spec_active()),
            final(self).colorspace == if toggles {
                old(self).colorspace.spec_toggled()
            } else {
                old(self).colorspace
            },
            render == (toggles || has_match(old(self).rasterizers.spec_keys(), key) || has_match(
                old(self).scenes.spec_keys(),
                key,
            ) || has_match(old(self).filters.spec_keys(), key)),
    {
        let chose_rasterizer = self.rasterizers.press(key);
        let chose_scene = self.scenes.press(key);
        let chose_filter = self.filters.press(key);
        if toggles {
            self.colorspace = self.colorspace.toggled();
        }
        toggles || chose_rasterizer || chose_scene || chose_filter
    }
}

} // verus!
