//! Keyed storage: a bag of shared resources addressed by short textual
//! keys. The value set is closed (pixel buffer, the two grids, a counter, a
//! small tuple), which rules out mismatched downcasts by construction. The
//! model is an association list with unique keys, read through `assoc`.

use vstd::prelude::*;
use crate::input::InputHandler;
use crate::life::ConwayGrid;
use crate::pixelmap::GlobalPixelMap;
use crate::sand::CellRealm;

verus! {

pub enum BucketAction {
    GET,
    PUT,
}

/// A storage value.
pub enum Bucket {
    PixelMap(GlobalPixelMap),
    LifeGrid(ConwayGrid),
    SandGrid(CellRealm),
    Counter(u64),
    Pair(u32, u32),
}

/// Whether a bucket's own invariant holds.
pub open spec fn bucket_wf(b: Bucket) -> bool {
    match b {
        Bucket::PixelMap(pm) => pm.wf(),
        Bucket::LifeGrid(g) => g.wf(),
        Bucket::SandGrid(g) => g.wf(),
        Bucket::Counter(_) => true,
        Bucket::Pair(_, _) => true,
    }
}

/// The first value bound to `key`, scanning left to right.
pub open spec fn assoc<V>(s: Seq<(String, V)>, key: Seq<char>) -> Option<V>
    decreases s.len(),
{
    if s.len() == 0 {
        None
    } else if s[0].0@ == key {
        Some(s[0].1)
    } else {
        assoc(s.drop_first(), key)
    }
}

/// `assoc` finds the value at the first index whose key matches.
pub proof fn lemma_assoc_at<V>(s: Seq<(String, V)>, key: Seq<char>, i: int)
    requires
        0 <= i < s.len(),
        s[i].0@ == key,
        forall|ii: int| 0 <= ii < i ==> s[ii].0@ != key,
    ensures
        assoc(s, key) == Some(s[i].1),
    decreases i,
{
    if i == 0 {
    } else {
        assert(s.drop_first()[i - 1] == s[i]);
        assert forall|ii: int| 0 <= ii < i - 1 implies s.drop_first()[ii].0@ != key by {
            assert(s.drop_first()[ii] == s[ii + 1]);
        }
        lemma_assoc_at(s.drop_first(), key, i - 1);
    }
}

/// If no key matches, `assoc` finds nothing.
pub proof fn lemma_assoc_none<V>(s: Seq<(String, V)>, key: Seq<char>)
    requires
        forall|ii: int| 0 <= ii < s.len() ==> s[ii].0@ != key,
    ensures
        assoc(s, key) == None::<V>,
    decreases s.len(),
{
    if s.len() == 0 {
    } else {
        assert forall|ii: int| 0 <= ii < s.len() - 1 implies s.drop_first()[ii].0@ != key by {
            assert(s.drop_first()[ii] == s[ii + 1]);
        }
        lemma_assoc_none(s.drop_first(), key);
    }
}

/// Appending a fresh binding serves lookups of its key (if unbound before)
/// and changes no other lookup.
pub proof fn lemma_assoc_push<V>(s: Seq<(String, V)>, p: (String, V), key: Seq<char>)
    ensures
        assoc(s.push(p), key) == (if assoc(s, key).is_some() {
            assoc(s, key)
        } else if p.0@ == key {
            Some(p.1)
        } else {
            None
        }),
    decreases s.len(),
{
    if s.len() == 0 {
        assert(s.push(p)[0] == p);
        assert(s.push(p).drop_first() =~= Seq::<(String, V)>::empty());
        assert(assoc(s, key) == None::<V>);
        assert(assoc(s.push(p).drop_first(), key) == None::<V>);
    } else {
        assert(s.push(p)[0] == s[0]);
        assert(s.push(p).drop_first() =~= s.drop_first().push(p));
        lemma_assoc_push(s.drop_first(), p, key);
        assert(assoc(s.push(p), key) == (if s[0].0@ == key {
            Some(s[0].1)
        } else {
            assoc(s.drop_first().push(p), key)
        }));
    }
}

/// Rebinding the first occurrence of a key serves the new value for that
/// key and changes no other lookup.
pub proof fn lemma_assoc_update<V>(s: Seq<(String, V)>, i: int, p: (String, V), key: Seq<char>)
    requires
        0 <= i < s.len(),
        s[i].0@ == p.0@,
        forall|ii: int| 0 <= ii < i ==> s[ii].0@ != p.0@,
    ensures
        assoc(s.update(i, p), key) == (if key == p.0@ {
            Some(p.1)
        } else {
            assoc(s, key)
        }),
    decreases i,
{
    let t = s.update(i, p);
    if i == 0 {
        assert(t[0] == p);
        assert(t.drop_first() =~= s.drop_first());
        if key != p.0@ {
            assert(assoc(s, key) == assoc(s.drop_first(), key));
        }
    } else {
        assert(t[0] == s[0]);
        assert(t.drop_first() =~= s.drop_first().update(i - 1, p));
        assert(s.drop_first()[i - 1] == s[i]);
        assert forall|ii: int| 0 <= ii < i - 1 implies s.drop_first()[ii].0@ != p.0@ by {
            assert(s.drop_first()[ii] == s[ii + 1]);
        }
        lemma_assoc_update(s.drop_first(), i - 1, p, key);
    }
}

pub struct Storage {
    pub buckets: Vec<(String, Bucket)>,
}

impl Storage {
    /// Keys are unique and every bucket keeps its own invariant.
    pub open spec fn wf(&self) -> bool {
        &&& forall|i: int, j: int|
            0 <= i < j < self.buckets@.len() ==> self.buckets@[i].0@ != self.buckets@[j].0@
        &&& forall|i: int| 0 <= i < self.buckets@.len() ==> bucket_wf(#[trigger] self.buckets@[i].1)
    }

    /// What `key` resolves to.
    pub open spec fn spec_get(&self, key: Seq<char>) -> Option<Bucket> {
        assoc(self.buckets@, key)
    }

    pub fn new() -> (s: Storage)
        ensures
            s.wf(),
            s.buckets@.len() == 0,
            forall|key: Seq<char>| s.spec_get(key) == None::<Bucket>,
    {
        let s = Storage { buckets: Vec::new() };
        proof {
            assert forall|key: Seq<char>| s.spec_get(key) == None::<Bucket> by {
                lemma_assoc_none(s.buckets@, key);
            }
        }
        s
    }

    fn find_index(&self, label: &str) -> (r: Option<usize>)
        ensures
            match r {
                Some(i) => i < self.buckets@.len() && self.buckets@[i as int].0@ == label@ && forall|
                    ii: int,
                |
                    0 <= ii < i ==> self.buckets@[ii].0@ != label@,
                None => forall|ii: int| 0 <= ii < self.buckets@.len() ==> self.buckets@[ii].0@
                    != label@,
            },
    {
        let key: String = label.to_owned();
        let n: usize = self.buckets.len();
        let mut i: usize = 0;
        while i < n
            invariant
                i <= n,
                n == self.buckets@.len(),
                key@ == label@,
                forall|ii: int| 0 <= ii < i ==> self.buckets@[ii].0@ != label@,
            decreases n - i,
        {
            if self.buckets[i].0 == key {
                return Some(i);
            }
            i = i + 1;
        }
        None
    }

    /// Whether `label` is bound.
    pub fn has_bucket(&self, label: &str) -> (r: bool)
        ensures
            r == self.spec_get(label@).is_some(),
    {
        let idx: Option<usize> = self.find_index(label);
        proof {
            match idx {
                Some(i) => lemma_assoc_at(self.buckets@, label@, i as int),
                None => lemma_assoc_none(self.buckets@, label@),
            }
        }
        idx.is_some()
    }

    /// Bind `label` to `data`, replacing any previous binding.
    pub fn new_bucket(&mut self, label: &str, data: Bucket)
        requires
            old(self).wf(),
            bucket_wf(data),
        ensures
            final(self).wf(),
            final(self).spec_get(label@) == Some(data),
            forall|key: Seq<char>|
                key != label@ ==> final(self).spec_get(key) == old(self).spec_get(key),
    {
        let key: String = label.to_owned();
        let idx: Option<usize> = self.find_index(label);
        match idx {
            Some(i) => {
                let ghost s0 = self.buckets@;
                self.buckets.set(i, (key, data));
                proof {
                    lemma_assoc_update(s0, i as int, self.buckets@[i as int], label@);
                    assert forall|key2: Seq<char>|
                        key2 != label@ implies assoc(self.buckets@, key2) == assoc(s0, key2) by {
                        lemma_assoc_update(s0, i as int, self.buckets@[i as int], key2);
                    }
                }
            },
            None => {
                let ghost s0 = self.buckets@;
                self.buckets.push((key, data));
                proof {
                    lemma_assoc_none(s0, label@);
                    lemma_assoc_push(s0, self.buckets@[s0.len() as int], label@);
                    assert forall|key2: Seq<char>|
                        key2 != label@ implies assoc(self.buckets@, key2) == assoc(s0, key2) by {
                        lemma_assoc_push(s0, self.buckets@[s0.len() as int], key2);
                    }
                    assert forall|i: int, j: int|
                        0 <= i < j < self.buckets@.len() implies self.buckets@[i].0@
                        != self.buckets@[j].0@ by {
                        if j == self.buckets@.len() - 1 {
                            assert(self.buckets@[i] == s0[i]);
                        }
                    }
                }
            },
        }
    }

    /// Read the bucket bound to `label`, if any.
    pub fn query_storage(&self, label: &str) -> (r: Option<&Bucket>)
        ensures
            match r {
                Some(b) => self.spec_get(label@) == Some(*b),
                None => self.spec_get(label@) == None::<Bucket>,
            },
    {
        let idx: Option<usize> = self.find_index(label);
        match idx {
            Some(i) => {
                proof {
                    lemma_assoc_at(self.buckets@, label@, i as int);
                }
                Some(&self.buckets[i].1)
            },
            None => {
                proof {
                    lemma_assoc_none(self.buckets@, label@);
                }
                None
            },
        }
    }

    /// Borrow the bucket bound to `label` exclusively. The final storage
    /// is the old one with that one slot rebound to whatever the caller
    /// leaves behind the reference.
    pub fn query_storage_mut(&mut self, label: &str) -> (r: &mut Bucket)
        requires
            old(self).spec_get(label@).is_some(),
        ensures
            old(self).spec_get(label@) == Some(*r),
            exists|i: int|
                {
                    &&& 0 <= i < old(self).buckets@.len()
                    &&& old(self).buckets@[i].0@ == label@
                    &&& old(self).buckets@[i].1 == *r
                    &&& final(self).buckets@ == old(self).buckets@.update(
                        i,
                        (old(self).buckets@[i].0, *final(r)),
                    )
                },
    {
        let idx: Option<usize> = self.find_index(label);
        let ghost s0 = self.buckets@;
        match idx {
            Some(i) => {
                proof {
                    lemma_assoc_at(s0, label@, i as int);
                }
                let entry: &mut (String, Bucket) = &mut self.buckets[i];
                &mut entry.1
            },
            None => {
                proof {
                    lemma_assoc_none(s0, label@);
                    assert(false);
                }
                vstd::pervasive::unreached()
            },
        }
    }

    /// Bind the distinguished "pixelmap" key to a pixel buffer.
    pub fn new_global_pixel_map(&mut self, pixelmap: GlobalPixelMap)
        requires
            old(self).wf(),
            pixelmap.wf(),
        ensures
            final(self).wf(),
            final(self).spec_get("pixelmap"@) == Some(Bucket::PixelMap(pixelmap)),
            forall|key: Seq<char>|
                key != "pixelmap"@ ==> final(self).spec_get(key) == old(self).spec_get(key),
    {
        self.new_bucket("pixelmap", Bucket::PixelMap(pixelmap));
    }

    /// Read the pixel buffer under the distinguished "pixelmap" key.
    pub fn query_global_pixel_map(&self) -> (r: Option<&GlobalPixelMap>)
        ensures
            match r {
                Some(pm) => self.spec_get("pixelmap"@) == Some(Bucket::PixelMap(*pm)),
                None => !has_pixel_map(*self),
            },
    {
        match self.query_storage("pixelmap") {
            Some(b) => match b {
                Bucket::PixelMap(pm) => Some(pm),
                _ => None,
            },
            None => None,
        }
    }

    /// Let the pixel buffer consume this tick's input (camera zoom and
    /// panning); every other binding is untouched.
    pub fn update_global_pixel_map(&mut self, input: &InputHandler)
        requires
            old(self).wf(),
            has_pixel_map(*old(self)),
        ensures
            final(self).wf(),
            has_pixel_map(*final(self)),
            pixel_map_of(*final(self)) == (GlobalPixelMap {
                camera: GlobalPixelMap::camera_after_update(
                    pixel_map_of(*old(self)).camera,
                    *input,
                ),
                ..pixel_map_of(*old(self))
            }),
            forall|key: Seq<char>|
                key != "pixelmap"@ ==> final(self).spec_get(key) == old(self).spec_get(key),
    {
        let ghost s0 = self.buckets@;
        let idx: Option<usize> = self.find_index("pixelmap");
        match idx {
            Some(i) => {
                proof {
                    lemma_assoc_at(s0, "pixelmap"@, i as int);
                }
                let mut tmp: (String, Bucket) = (String::new(), Bucket::Counter(0));
                core::mem::swap(&mut self.buckets[i], &mut tmp);
                let (k, b) = tmp;
                match b {
                    Bucket::PixelMap(pm) => {
                        let mut pm2: GlobalPixelMap = pm;
                        pm2.update(input);
                        self.buckets.set(i, (k, Bucket::PixelMap(pm2)));
                    },
                    other => {
                        proof {
                            assert(false);
                        }
                        self.buckets.set(i, (k, other));
                    },
                }
                proof {
                    let t = self.buckets@;
                    assert(t[i as int].0 == s0[i as int].0);
                    assert(t =~= s0.update(i as int, t[i as int]));
                    lemma_assoc_update(s0, i as int, t[i as int], "pixelmap"@);
                    assert forall|key2: Seq<char>|
                        key2 != "pixelmap"@ implies assoc(t, key2) == assoc(s0, key2) by {
                        lemma_assoc_update(s0, i as int, t[i as int], key2);
                    }
                    assert forall|a: int, b2: int|
                        0 <= a < b2 < t.len() implies t[a].0@ != t[b2].0@ by {
                        assert(t[a].0@ == s0[a].0@ && t[b2].0@ == s0[b2].0@);
                    }
                    assert forall|a: int| 0 <= a < t.len() implies bucket_wf(
                        #[trigger] t[a].1,
                    ) by {
                        if a != i {
                            assert(t[a].1 == s0[a].1);
                        }
                    }
                }
            },
            None => {
                proof {
                    lemma_assoc_none(s0, "pixelmap"@);
                    assert(false);
                }
            },
        }
    }

    /// Publish a prepared color buffer into the pixel buffer by swapping
    /// rasters. When no pixel buffer is bound, or the buffer's length does
    /// not match, nothing changes.
    pub fn publish_pixel_map(&mut self, colors: &mut Vec<crate::color::Rgba>)
        requires
            old(self).wf(),
        ensures
            final(self).wf(),
            has_pixel_map(*old(self)) == has_pixel_map(*final(self)),
            (has_pixel_map(*old(self)) && old(colors)@.len() == pixel_map_of(
                *old(self),
            ).pixelmap@.len()) ==> {
                &&& pixel_map_of(*final(self)) == (GlobalPixelMap {
                    pixelmap: pixel_map_of(*final(self)).pixelmap,
                    ..pixel_map_of(*old(self))
                })
                &&& pixel_map_of(*final(self)).pixelmap@ == old(colors)@
                &&& final(colors)@ == pixel_map_of(*old(self)).pixelmap@
            },
            !(has_pixel_map(*old(self)) && old(colors)@.len() == pixel_map_of(
                *old(self),
            ).pixelmap@.len()) ==> (final(self).buckets@ == old(self).buckets@
                && final(colors)@ == old(colors)@),
            forall|key: Seq<char>|
                key != "pixelmap"@ ==> final(self).spec_get(key) == old(self).spec_get(key),
    {
        let ghost s0 = self.buckets@;
        let idx: Option<usize> = self.find_index("pixelmap");
        match idx {
            Some(i) => {
                proof {
                    lemma_assoc_at(s0, "pixelmap"@, i as int);
                }
                let mut tmp: (String, Bucket) = (String::new(), Bucket::Counter(0));
                core::mem::swap(&mut self.buckets[i], &mut tmp);
                let (k, b) = tmp;
                match b {
                    Bucket::PixelMap(pm) => {
                        let mut pm2: GlobalPixelMap = pm;
                        if pm2.pixelmap.len() == colors.len() {
                            pm2.draw_flat_vec(colors);
                        }
                        self.buckets.set(i, (k, Bucket::PixelMap(pm2)));
                    },
                    other => {
                        self.buckets.set(i, (k, other));
                    },
                }
                proof {
                    let t = self.buckets@;
                    assert(t[i as int].0 == s0[i as int].0);
                    assert(t =~= s0.update(i as int, t[i as int]));
                    lemma_assoc_update(s0, i as int, t[i as int], "pixelmap"@);
                    assert forall|key2: Seq<char>|
                        key2 != "pixelmap"@ implies assoc(t, key2) == assoc(s0, key2) by {
                        lemma_assoc_update(s0, i as int, t[i as int], key2);
                    }
                    assert forall|a: int, b2: int|
                        0 <= a < b2 < t.len() implies t[a].0@ != t[b2].0@ by {
                        assert(t[a].0@ == s0[a].0@ && t[b2].0@ == s0[b2].0@);
                    }
                    assert forall|a: int| 0 <= a < t.len() implies bucket_wf(
                        #[trigger] t[a].1,
                    ) by {
                        if a != i {
                            assert(t[a].1 == s0[a].1);
                        }
                    }
                    if t[i as int] == s0[i as int] {
                        assert(t =~= s0);
                    }
                }
            },
            None => {
                proof {
                    lemma_assoc_none(s0, "pixelmap"@);
                }
            },
        }
    }
}

/// Whether the "pixelmap" key resolves to a pixel buffer.
pub open spec fn has_pixel_map(s: Storage) -> bool {
    match assoc(s.buckets@, "pixelmap"@) {
        Some(Bucket::PixelMap(_)) => true,
        _ => false,
    }
}

/// The pixel buffer under the "pixelmap" key.
pub open spec fn pixel_map_of(s: Storage) -> GlobalPixelMap {
    match assoc(s.buckets@, "pixelmap"@) {
        Some(Bucket::PixelMap(pm)) => pm,
        _ => arbitrary(),
    }
}

} // verus!
