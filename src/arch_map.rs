use vstd::prelude::*;

use crate::constants::{
    is_platform_label, lemma_platform_labels, platform_label, platform_of, Platform,
    PLATFORM_COUNT,
};
use crate::select::strs;

verus! {

/// The architectures chosen per platform, keyed by platform label.
pub struct ArchMap {
    slots: Vec<Option<Vec<String>>>,
}

impl View for ArchMap {
    type V = Map<Seq<char>, Seq<Seq<char>>>;

    /// Label of each platform with an entry, to the labels of its architectures.
    closed spec fn view(&self) -> Map<Seq<char>, Seq<Seq<char>>> {
        Map::new(
            |k: Seq<char>| is_platform_label(k) && self.slot(platform_of(k)) is Some,
            |k: Seq<char>| strs(self.slot(platform_of(k))->0@),
        )
    }
}

impl ArchMap {
    /// One slot per catalog platform.
    pub closed spec fn wf(&self) -> bool {
        self.slots@.len() == PLATFORM_COUNT
    }

    pub closed spec fn slot(&self, p: Platform) -> Option<Vec<String>> {
        self.slots@[p.index()]
    }

    /// The empty map.
    pub fn new() -> (r: ArchMap)
        ensures
            r.wf(),
            r@ == Map::<Seq<char>, Seq<Seq<char>>>::empty(),
    {
        let r = ArchMap { slots: vec![None, None, None] };
        assert(r@ =~= Map::<Seq<char>, Seq<Seq<char>>>::empty());
        r
    }

    /// Sets the architectures of `p`, replacing any earlier entry for it.
    pub fn insert(&mut self, p: Platform, archs: Vec<String>)
        requires
            old(self).wf(),
        ensures
            final(self).wf(),
            final(self)@ == old(self)@.insert(platform_label(p), strs(archs@)),
    {
        proof {
            lemma_platform_labels();
        }
        let ghost before = self@;
        let i = p.as_usize();
        self.slots.set(i, Some(archs));
        assert forall|k: Seq<char>| is_platform_label(k) && platform_of(k) != p implies
            #[trigger] self.slot(platform_of(k)) == old(self).slot(platform_of(k)) by {
            assert(platform_of(k).index() != p.index());
        }
        assert(self@ =~= before.insert(platform_label(p), strs(archs@)));
    }

    /// The architectures recorded under a label, if any.
    pub fn get(&self, label: &str) -> (r: Option<&Vec<String>>)
        requires
            self.wf(),
        ensures
            r is Some == self@.contains_key(label@),
            r is Some ==> strs(r->0@) == self@[label@],
    {
        match Platform::from_label(label) {
            Some(p) => {
                let i = p.as_usize();
                self.slots[i].as_ref()
            },
            None => None,
        }
    }

    /// Whether no platform has an entry.
    pub fn is_empty(&self) -> (r: bool)
        requires
            self.wf(),
        ensures
            r == (self@.dom() == Set::<Seq<char>>::empty()),
    {
        proof {
            lemma_platform_labels();
        }
        let r = self.slots[0].is_none() && self.slots[1].is_none() && self.slots[2].is_none();
        if !r {
            let ghost k = if self.slots@[0] is Some {
                platform_label(Platform::Ios)
            } else if self.slots@[1] is Some {
                platform_label(Platform::Android)
            } else {
                platform_label(Platform::Web)
            };
            assert(self@.dom().contains(k));
        } else {
            assert forall|k: Seq<char>| !self@.dom().contains(k) by {
                if is_platform_label(k) {
                    assert(0 <= platform_of(k).index() < 3);
                }
            }
            assert(self@.dom() =~= Set::<Seq<char>>::empty());
        }
        r
    }
}

} // verus!
