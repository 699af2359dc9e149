use vstd::prelude::*;

use crate::room_graph::{RoomGraph, ZoneLinks};

verus! {

/// A change to the live scene that the cache asks its host to carry out, in
/// the order given. Zone instances are named by handles that the cache hands
/// out and never reuses.
#[derive(Copy, Clone, Debug, PartialEq, Eq, Structural)]
pub enum CacheEffect {
    /// Create a detached instance of zone `zone` under the handle `handle`.
    Instantiate { zone: usize, handle: u64 },
    /// Detach the instance `handle` if attached, and free it.
    Destroy { handle: u64 },
    /// Attach the instance `handle` to the live world as the active zone.
    Attach { handle: u64 },
}

/// The effects that `new_log` holds beyond its prefix `old_log`.
pub open spec fn added(old_log: Seq<CacheEffect>, new_log: Seq<CacheEffect>) -> Seq<CacheEffect> {
    new_log.subrange(old_log.len() as int, new_log.len() as int)
}

/// A sequence of effects that holds no effect twice, and with a prefix that
/// it keeps: each instance is created, attached or destroyed at most once.
pub open spec fn extends_once(old_log: Seq<CacheEffect>, new_log: Seq<CacheEffect>) -> bool {
    &&& old_log.is_prefix_of(new_log)
    &&& added(old_log, new_log).no_duplicates()
}

/// What a sequence holds after a push.
proof fn lemma_push_contains(s: Seq<CacheEffect>, x: CacheEffect)
    ensures
        forall|e: CacheEffect| #[trigger] s.push(x).contains(e) <==> s.contains(e) || e == x,
        s.no_duplicates() && !s.contains(x) ==> s.push(x).no_duplicates(),
{
    if s.no_duplicates() && !s.contains(x) {
        assert forall|i: int, j: int|
            0 <= i < s.push(x).len() && 0 <= j < s.push(x).len() && i != j implies s.push(x)[i]
                != s.push(x)[j] by {
            if i < s.len() && j < s.len() {
                assert(s.push(x)[i] == s[i] && s.push(x)[j] == s[j]);
            } else if i < s.len() {
                assert(s.push(x)[i] == s[i]);
                assert(s.contains(s[i]));
            } else if j < s.len() {
                assert(s.push(x)[j] == s[j]);
                assert(s.contains(s[j]));
            }
        }
    }
    assert forall|e: CacheEffect| #[trigger] s.push(x).contains(e) <==> s.contains(e) || e == x by {
        if s.push(x).contains(e) {
            let j = choose|j: int| 0 <= j < s.push(x).len() && s.push(x)[j] == e;
            if j < s.len() {
                assert(s[j] == e);
            }
        }
        if s.contains(e) {
            let j = choose|j: int| 0 <= j < s.len() && s[j] == e;
            assert(s.push(x)[j] == e);
        }
        if e == x {
            assert(s.push(x)[s.len() as int] == e);
        }
    }
}

/// What a concatenation holds, and when it holds nothing twice.
proof fn lemma_concat(a: Seq<CacheEffect>, b: Seq<CacheEffect>)
    ensures
        forall|e: CacheEffect| #[trigger] (a + b).contains(e) <==> a.contains(e) || b.contains(e),
        a.no_duplicates() && b.no_duplicates() && (forall|e: CacheEffect|
            a.contains(e) ==> !#[trigger] b.contains(e)) ==> (a + b).no_duplicates(),
{
    assert forall|e: CacheEffect| #[trigger] (a + b).contains(e) <==> a.contains(e) || b.contains(e) by {
        if (a + b).contains(e) {
            let j = choose|j: int| 0 <= j < (a + b).len() && (a + b)[j] == e;
            if j < a.len() {
                assert(a[j] == e);
            } else {
                assert(b[j - a.len()] == e);
            }
        }
        if a.contains(e) {
            let j = choose|j: int| 0 <= j < a.len() && a[j] == e;
            assert((a + b)[j] == e);
        }
        if b.contains(e) {
            let j = choose|j: int| 0 <= j < b.len() && b[j] == e;
            assert((a + b)[a.len() + j] == e);
        }
    }
    if a.no_duplicates() && b.no_duplicates() && (forall|e: CacheEffect|
        a.contains(e) ==> !#[trigger] b.contains(e)) {
        assert forall|i: int, j: int|
            0 <= i < (a + b).len() && 0 <= j < (a + b).len() && i != j implies (a + b)[i] != (a
                + b)[j] by {
            if i < a.len() && j < a.len() {
                assert(a[i] == (a + b)[i] && a[j] == (a + b)[j]);
            } else if i < a.len() && j >= a.len() {
                assert(a[i] == (a + b)[i]);
                assert(b[j - a.len()] == (a + b)[j]);
                assert(b.contains(b[j - a.len()]));
            } else if j < a.len() && i >= a.len() {
                assert(a[j] == (a + b)[j]);
                assert(b[i - a.len()] == (a + b)[i]);
                assert(b.contains(b[i - a.len()]));
            } else {
                assert(b[i - a.len()] == (a + b)[i]);
                assert(b[j - a.len()] == (a + b)[j]);
            }
        }
    }
}

/// No handle stands in two slots.
pub open spec fn distinct_slots(s: Seq<Option<u64>>) -> bool {
    forall|i: int, j: int|
        0 <= i < s.len() && 0 <= j < s.len() && i != j && (#[trigger] s[i]) is Some && (
        #[trigger] s[j]) is Some ==> s[i]->0 != s[j]->0
}

/// Owns the zone instances: the active one and those of its neighbours that
/// are kept warm. The preloaded instances are kept in one slot per zone.
pub struct ZoneCache {
    graph: RoomGraph,
    loadable: Vec<bool>,
    active: Option<(usize, u64)>,
    slots: Vec<Option<u64>>,
    next_handle: u64,
}

impl ZoneCache {
    /// The adjacency graph the cache follows.
    pub closed spec fn graph(&self) -> RoomGraph {
        self.graph
    }

    /// For each zone, whether its template can be instantiated.
    pub closed spec fn templates(&self) -> Seq<bool> {
        self.loadable@
    }

    /// The active zone and the handle of its instance.
    pub closed spec fn active(&self) -> Option<(usize, u64)> {
        self.active
    }

    /// The preload slot of each zone.
    pub closed spec fn slots(&self) -> Seq<Option<u64>> {
        self.slots@
    }

    /// The handle that the next instance will get.
    pub closed spec fn next_handle(&self) -> nat {
        self.next_handle as nat
    }

    /// The active zone, if any.
    pub open spec fn active_zone(&self) -> Option<usize> {
        match self.active() {
            Some((z, _)) => Some(z),
            None => None,
        }
    }

    /// The handle of the active instance, if any.
    pub open spec fn active_handle(&self) -> Option<u64> {
        match self.active() {
            Some((_, h)) => Some(h),
            None => None,
        }
    }

    /// Whether zone `z` is in the graph and its template can be instantiated.
    pub open spec fn can_load(&self, z: int) -> bool {
        0 <= z < self.graph().len() && z < self.templates().len() && self.templates()[z]
    }

    /// The preloaded instances, by zone.
    pub open spec fn preloads(&self) -> Map<usize, u64> {
        Map::new(
            |k: usize| k < self.slots().len() && self.slots()[k as int] is Some,
            |k: usize| self.slots()[k as int]->0,
        )
    }

    /// The zones that are preloaded while `z` is active: its neighbours other
    /// than itself whose templates can be instantiated.
    pub open spec fn expected_preloads(&self, z: usize) -> Set<usize> {
        Set::new(
            |k: usize| self.graph().neighbor_set(z as int).contains(k) && k != z && self.can_load(
                k as int,
            ),
        )
    }

    /// Whether the cache still owns the instance `h`.
    pub open spec fn holds(&self, h: u64) -> bool {
        (self.active() matches Some((_, a)) && a == h) || exists|k: usize|
            #[trigger] self.preloads().contains_key(k) && self.preloads()[k] == h
    }

    /// Whether activating zone `z` destroys the instance `h`: the previous
    /// active instance, and each preloaded one that is neither `z` nor a
    /// neighbour of `z`.
    pub open spec fn evicts(&self, z: usize, h: u64) -> bool {
        ||| (self.active() matches Some((_, a)) && a == h)
        ||| exists|k: usize|
            #[trigger] self.preloads().contains_key(k) && self.preloads()[k] == h && k != z
                && !self.graph().neighbor_set(z as int).contains(k)
    }

    /// Well-formedness: one template flag and one slot per zone; handles are
    /// below the counter and pairwise distinct; the active zone is loadable
    /// and not preloaded; and exactly the expected neighbours are preloaded.
    pub open spec fn wf(&self) -> bool {
        &&& self.graph().wf()
        &&& self.templates().len() == self.graph().len()
        &&& self.slots().len() == self.graph().len()
        &&& self.active() matches Some((z, h)) ==> {
            &&& self.can_load(z as int)
            &&& h < self.next_handle()
            &&& self.slots()[z as int] is None
        }
        &&& forall|k: int|
            0 <= k < self.slots().len() && #[trigger] self.slots()[k] is Some ==> {
                &&& self.slots()[k]->0 < self.next_handle()
                &&& !(self.active() matches Some((_, a)) && a == self.slots()[k]->0)
            }
        &&& distinct_slots(self.slots())
        &&& forall|k: usize|
            #[trigger] self.preloads().contains_key(k) <==> (self.active() matches Some((z, _))
                && self.expected_preloads(z).contains(k))
    }

    /// What a successful activation of `z` leaves, where `h` is the new
    /// active instance and `effs` the effects it asked for. With `reuse`, a
    /// preloaded instance of `z` becomes the active one; without it, that
    /// instance is destroyed and a new one created.
    pub open spec fn activated_by(
        &self,
        post: &ZoneCache,
        z: usize,
        h: u64,
        effs: Seq<CacheEffect>,
        reuse: bool,
    ) -> bool {
        let had = self.preloads().contains_key(z);
        &&& post.active() == Some((z, h))
        &&& h == (if reuse && had {
            self.preloads()[z]
        } else {
            self.next_handle() as u64
        })
        &&& post.preloads().dom() == self.expected_preloads(z)
        &&& forall|k: usize|
            #[trigger] post.preloads().contains_key(k) && self.preloads().contains_key(k)
                ==> post.preloads()[k] == self.preloads()[k]
        &&& forall|k: usize|
            #[trigger] post.preloads().contains_key(k) && !self.preloads().contains_key(k)
                ==> self.next_handle() <= post.preloads()[k] < post.next_handle()
        &&& effs.no_duplicates()
        &&& forall|g: u64| #[trigger] effs.contains(CacheEffect::Destroy { handle: g }) <==> {
            ||| self.evicts(z, g)
            ||| (!reuse && had && g == self.preloads()[z])
        }
        &&& forall|g: u64| #[trigger] effs.contains(CacheEffect::Attach { handle: g }) <==> g == h
        &&& forall|k: usize, g: u64|
            #[trigger] effs.contains(CacheEffect::Instantiate { zone: k, handle: g }) <==> {
                ||| (k == z && g == h && !(reuse && had))
                ||| (post.preloads().contains_key(k) && !self.preloads().contains_key(k)
                    && post.preloads()[k] == g)
            }
    }

    /// What a successful activation of `z` that reuses a preloaded instance
    /// leaves.
    pub open spec fn activated(
        &self,
        post: &ZoneCache,
        z: usize,
        h: u64,
        effs: Seq<CacheEffect>,
    ) -> bool {
        self.activated_by(post, z, h, effs, true)
    }

    /// The outcome of activating `zone`: nothing changes when it is already
    /// active (the result is its instance) or cannot be instantiated (the
    /// result is `None`); otherwise the activation succeeds.
    pub open spec fn activation(
        &self,
        post: &ZoneCache,
        zone: usize,
        r: Option<u64>,
        old_log: Seq<CacheEffect>,
        new_log: Seq<CacheEffect>,
        reuse: bool,
    ) -> bool {
        if self.active_zone() == Some(zone) {
            &&& r == self.active_handle()
            &&& *post == *self
            &&& new_log == old_log
        } else if !self.can_load(zone as int) {
            &&& r is None
            &&& *post == *self
            &&& new_log == old_log
        } else {
            &&& r is Some
            &&& self.activated_by(post, zone, r->0, added(old_log, new_log), reuse)
        }
    }

    /// After a successful activation of `zone` in which every neighbour can
    /// be instantiated, the preloads are exactly the neighbours but `zone`;
    /// and each preloaded instance that is neither `zone` nor a neighbour is
    /// destroyed and no longer held.
    pub open spec fn activation_laws(
        &self,
        post: &ZoneCache,
        zone: usize,
        old_log: Seq<CacheEffect>,
        new_log: Seq<CacheEffect>,
    ) -> bool {
        &&& self.active_zone() != Some(zone) && self.can_load(zone as int) && (forall|k: usize|
            #[trigger] self.graph().neighbor_set(zone as int).contains(k) ==> self.can_load(
                k as int,
            )) ==> post.preloads().dom() == self.graph().neighbor_set(zone as int).remove(zone)
        &&& forall|k: usize|
            self.active_zone() != Some(zone) && self.can_load(zone as int)
                && #[trigger] self.preloads().contains_key(k) && k != zone
                && !self.graph().neighbor_set(zone as int).contains(k) ==> {
                &&& added(old_log, new_log).contains(
                    CacheEffect::Destroy { handle: self.preloads()[k] },
                )
                &&& !post.holds(self.preloads()[k])
                &&& self.preloads()[k] < post.next_handle()
            }
    }

    /// An empty cache over `graph`; zone `z` can be instantiated when
    /// `loadable[z]` is true.
    pub fn new(graph: RoomGraph, loadable: Vec<bool>) -> (r: Self)
        requires
            graph.wf(),
        ensures
            r.wf(),
            r.graph() == graph,
            r.active() is None,
            r.preloads().is_empty(),
            r.next_handle() == 0,
            forall|z: int| #[trigger] r.can_load(z) <==> 0 <= z < graph.len() && z < loadable@.len() && loadable@[z],
    {
        let n = graph.zone_count();
        let mut flags: Vec<bool> = Vec::new();
        let mut slots: Vec<Option<u64>> = Vec::new();
        let mut i: usize = 0;
        while i < n
            invariant
                n == graph.len(),
                i <= n,
                flags@.len() == i,
                slots@.len() == i,
                forall|j: int| 0 <= j < i ==> #[trigger] flags@[j] == (j < loadable@.len() && loadable@[j]),
                forall|j: int| 0 <= j < i ==> #[trigger] slots@[j] is None,
            decreases n - i,
        {
            let f = i < loadable.len() && loadable[i];
            flags.push(f);
            slots.push(None);
            i = i + 1;
        }
        let r = ZoneCache { graph, loadable: flags, active: None, slots, next_handle: 0 };
        assert(r.preloads().dom() =~= Set::empty());
        r
    }

    /// The adjacency graph.
    pub fn graph_ref(&self) -> (r: &RoomGraph)
        ensures
            *r == self.graph(),
    {
        &self.graph
    }

    /// The active zone, if any.
    pub fn current_zone(&self) -> (r: Option<usize>)
        ensures
            r == self.active_zone(),
    {
        match self.active {
            Some((z, _)) => Some(z),
            None => None,
        }
    }

    /// The handle of the active instance, if any.
    pub fn current_instance(&self) -> (r: Option<u64>)
        ensures
            r == self.active_handle(),
    {
        match self.active {
            Some((_, h)) => Some(h),
            None => None,
        }
    }

    /// The preloaded instance of zone `z`, if any.
    pub fn preloaded(&self, z: usize) -> (r: Option<u64>)
        requires
            self.wf(),
        ensures
            r == (if self.preloads().contains_key(z) {
                Some(self.preloads()[z])
            } else {
                None::<u64>
            }),
    {
        if z < self.slots.len() {
            self.slots[z]
        } else {
            None
        }
    }

    /// Whether enough fresh handles remain for one more activation.
    pub fn handles_left(&self) -> (r: bool)
        ensures
            r == (self.next_handle() + 5 <= u64::MAX),
    {
        self.next_handle <= u64::MAX - 5
    }

    /// Whether zone `z` can be instantiated.
    pub fn is_loadable(&self, z: usize) -> (r: bool)
        requires
            self.wf(),
        ensures
            r == self.can_load(z as int),
    {
        z < self.loadable.len() && self.loadable[z]
    }

    /// Whether `k` is one of the neighbours in `l`.
    fn links_contain(l: &ZoneLinks, k: usize) -> (r: bool)
        ensures
            r == l.contains(k),
    {
        l.left == Some(k) || l.right == Some(k) || l.up == Some(k) || l.down == Some(k)
    }

    /// Drops, and asks to destroy, every preloaded instance whose zone is
    /// neither `center` nor a neighbour of `center`.
    fn discard_far(&mut self, center: usize, log: &mut Vec<CacheEffect>)
        requires
            old(self).graph().wf(),
            old(self).slots().len() == old(self).graph().len(),
            distinct_slots(old(self).slots()),
        ensures
            final(self).graph() == old(self).graph(),
            final(self).templates() == old(self).templates(),
            final(self).active() == old(self).active(),
            final(self).next_handle() == old(self).next_handle(),
            final(self).slots().len() == old(self).slots().len(),
            forall|k: int|
                0 <= k < old(self).slots().len() ==> #[trigger] final(self).slots()[k] == (if k
                    == center || old(self).graph().neighbor_set(center as int).contains(k as usize) {
                    old(self).slots()[k]
                } else {
                    None
                }),
            extends_once(old(log)@, final(log)@),
            forall|e: CacheEffect|
                #[trigger] added(old(log)@, final(log)@).contains(e) ==> e is Destroy,
            forall|g: u64|
                #[trigger] added(old(log)@, final(log)@).contains(CacheEffect::Destroy { handle: g })
                    <==> exists|k: int|
                    0 <= k < old(self).slots().len() && #[trigger] old(self).slots()[k] == Some(g)
                        && k != center && !old(self).graph().neighbor_set(center as int).contains(
                        k as usize,
                    ),
    {
        let ghost s0 = self.slots@;
        let ghost log0 = log@;
        let links = self.graph.zone_links(center);
        let n = self.slots.len();
        let mut i: usize = 0;
        while i < n
            invariant
                n == s0.len(),
                i <= n,
                distinct_slots(s0),
                self.graph == old(self).graph,
                self.loadable == old(self).loadable,
                self.active == old(self).active,
                self.next_handle == old(self).next_handle,
                links == self.graph().links_of(center as int),
                self.slots@.len() == n,
                forall|k: int| i <= k < n ==> #[trigger] self.slots@[k] == s0[k],
                forall|k: int|
                    0 <= k < i ==> #[trigger] self.slots@[k] == (if k == center || links.contains(
                        k as usize,
                    ) {
                        s0[k]
                    } else {
                        None
                    }),
                log0.is_prefix_of(log@),
                added(log0, log@).no_duplicates(),
                forall|e: CacheEffect| #[trigger] added(log0, log@).contains(e) ==> e is Destroy,
                forall|g: u64|
                    #[trigger] added(log0, log@).contains(CacheEffect::Destroy { handle: g })
                        <==> exists|k: int|
                        0 <= k < i && #[trigger] s0[k] == Some(g) && k != center && !links.contains(k as usize),
            decreases n - i,
        {
            let ghost before = log@;
            if let Some(h) = self.slots[i] {
                if !Self::links_contain(&links, i) && i != center {
                    proof {
                        assert forall|k: int| 0 <= k < i && #[trigger] s0[k] == Some(h) implies false by {
                            assert(s0[k] is Some && s0[i as int] is Some);
                        }
                        assert(!added(log0, before).contains(CacheEffect::Destroy { handle: h }));
                    }
                    log.push(CacheEffect::Destroy { handle: h });
                    self.slots[i] = None;
                    proof {
                        assert(added(log0, log@) =~= added(log0, before).push(CacheEffect::Destroy { handle: h }));
                        lemma_push_contains(added(log0, before), CacheEffect::Destroy { handle: h });
                    }
                }
            }
            proof {
                assert forall|g: u64|
                    #[trigger] added(log0, log@).contains(CacheEffect::Destroy { handle: g })
                        <==> exists|k: int|
                        0 <= k < i + 1 && #[trigger] s0[k] == Some(g) && k != center && !links.contains(k as usize) by {
                    if added(log0, log@).contains(CacheEffect::Destroy { handle: g }) {
                        if !added(log0, before).contains(CacheEffect::Destroy { handle: g }) {
                            assert(s0[i as int] == Some(g));
                        }
                    }
                    if exists|k: int|
                        0 <= k < i + 1 && #[trigger] s0[k] == Some(g) && k != center && !links.contains(k as usize) {
                        let k = choose|k: int|
                            0 <= k < i + 1 && #[trigger] s0[k] == Some(g) && k != center && !links.contains(k as usize);
                        if k < i {
                            assert(added(log0, before).contains(CacheEffect::Destroy { handle: g }));
                        }
                    }
                }
            }
            i = i + 1;
        }
    }

    /// The state while the neighbours of `center` are being preloaded into
    /// `base`: the zones of `done` have been handled, and `effs` are the
    /// instances created so far.
    spec fn filling(
        base: ZoneCache,
        cur: ZoneCache,
        effs: Seq<CacheEffect>,
        center: usize,
        done: Set<usize>,
    ) -> bool {
        &&& cur.graph == base.graph
        &&& cur.loadable == base.loadable
        &&& cur.active == base.active
        &&& base.next_handle <= cur.next_handle
        &&& cur.slots@.len() == base.slots@.len()
        &&& base.slots@.len() == base.graph().len()
        &&& base.loadable@.len() == base.graph().len()
        &&& distinct_slots(cur.slots@)
        &&& base.slots@[center as int] is None
        &&& forall|k: int|
            0 <= k < base.slots@.len() && #[trigger] base.slots@[k] is Some ==> base.slots@[k]->0
                < base.next_handle
        &&& forall|k: int|
            0 <= k < base.slots@.len() ==> (#[trigger] cur.slots@[k] is Some <==> (
            base.slots@[k] is Some || (done.contains(k as usize) && k != center && base.can_load(
                k,
            ))))
        &&& forall|k: int|
            0 <= k < base.slots@.len() && #[trigger] base.slots@[k] is Some ==> cur.slots@[k]
                == base.slots@[k]
        &&& forall|k: int|
            0 <= k < base.slots@.len() && base.slots@[k] is None && #[trigger] cur.slots@[k] is Some
                ==> base.next_handle <= cur.slots@[k]->0 < cur.next_handle
        &&& effs.no_duplicates()
        &&& forall|e: CacheEffect| #[trigger] effs.contains(e) ==> e is Instantiate
        &&& forall|k: usize, g: u64|
            #[trigger] effs.contains(CacheEffect::Instantiate { zone: k, handle: g }) <==> (k
                < base.slots@.len() && base.slots@[k as int] is None && cur.slots@[k as int]
                == Some(g))
    }

    /// Preloads neighbour `k` of `center` unless it is `center`, is already
    /// preloaded, or cannot be instantiated.
    fn preload_neighbor(
        &mut self,
        center: usize,
        k: Option<usize>,
        log: &mut Vec<CacheEffect>,
        Ghost(base): Ghost<ZoneCache>,
        Ghost(log0): Ghost<Seq<CacheEffect>>,
        Ghost(done): Ghost<Set<usize>>,
    )
        requires
            Self::filling(base, *old(self), added(log0, old(log)@), center, done),
            log0.is_prefix_of(old(log)@),
            old(self).next_handle < u64::MAX,
            k matches Some(i) ==> i < base.graph().len(),
        ensures
            Self::filling(
                base,
                *final(self),
                added(log0, final(log)@),
                center,
                match k {
                    Some(i) => done.insert(i),
                    None => done,
                },
            ),
            log0.is_prefix_of(final(log)@),
            final(self).next_handle <= old(self).next_handle + 1,
    {
        let ghost before = log@;
        let ghost cur = *self;
        let ghost d2 = match k {
            Some(i) => done.insert(i),
            None => done,
        };
        if let Some(i) = k {
            if i != center && self.slots[i].is_none() && self.loadable[i] {
                let h = self.next_handle;
                proof {
                    assert forall|e: CacheEffect| #[trigger] added(log0, before).contains(e)
                        implies e != CacheEffect::Instantiate { zone: i, handle: h } by {
                        if e == (CacheEffect::Instantiate { zone: i, handle: h }) {
                            assert(self.slots@[i as int] == Some(h));
                        }
                    }
                }
                log.push(CacheEffect::Instantiate { zone: i, handle: h });
                self.slots[i] = Some(h);
                self.next_handle = h + 1;
                proof {
                    assert(added(log0, log@) =~= added(log0, before).push(
                        CacheEffect::Instantiate { zone: i, handle: h },
                    ));
                    lemma_push_contains(added(log0, before), CacheEffect::Instantiate { zone: i, handle: h });
                    assert forall|a: int, b: int|
                        0 <= a < self.slots@.len() && 0 <= b < self.slots@.len() && a != b && (
                        #[trigger] self.slots@[a]) is Some && (#[trigger] self.slots@[b]) is Some
                            implies self.slots@[a]->0 != self.slots@[b]->0 by {
                        if a != i && b != i {
                            assert(cur.slots@[a] is Some && cur.slots@[b] is Some);
                        } else if a == i {
                            assert(cur.slots@[b] is Some);
                        } else {
                            assert(cur.slots@[a] is Some);
                        }
                    }
                    assert forall|j: int| 0 <= j < base.slots@.len() implies (#[trigger] self.slots@[j] is Some <==> (
                        base.slots@[j] is Some || (d2.contains(j as usize) && j != center && base.can_load(j)))) by {
                        if j == i as int {
                            assert(d2.contains(j as usize));
                            assert(j != center);
                            assert(base.loadable@ == self.loadable@);
                            assert(self.loadable@[j]);
                            assert(base.can_load(j));
                        } else {
                            assert(self.slots@[j] == cur.slots@[j]);
                            assert(base.slots.len() == base.slots@.len());
                            assert(d2.contains(j as usize) <==> done.contains(j as usize));
                            assert(cur.slots@[j] is Some <==> (
                                base.slots@[j] is Some || (done.contains(j as usize) && j != center && base.can_load(j))));
                        }
                    }
                }
                return;
            }
        }
        proof {
            assert forall|j: int| 0 <= j < base.slots@.len() implies (#[trigger] self.slots@[j] is Some <==> (
                base.slots@[j] is Some || (d2.contains(j as usize) && j != center && base.can_load(j)))) by {
                assert(base.slots.len() == base.slots@.len());
                assert(cur.slots@[j] is Some <==> (
                    base.slots@[j] is Some || (done.contains(j as usize) && j != center && base.can_load(j))));
                if let Some(i) = k {
                    if j == i as int && j != center && base.can_load(j) {
                        assert(self.loadable@ == base.loadable@);
                    }
                }
            }
            assert(added(log0, log@) == added(log0, before));
        }
    }

    /// Activates `zone`, reusing a preloaded instance of it when `reuse`
    /// holds, and creating a new one otherwise.
    #[verifier::rlimit(100)]
    fn activate_with(&mut self, zone: usize, reuse: bool, log: &mut Vec<CacheEffect>) -> (r: Option<u64>)
        requires
            old(self).wf(),
            old(self).next_handle() + 5 <= u64::MAX,
        ensures
            final(self).wf(),
            final(self).graph() == old(self).graph(),
            final(self).templates() == old(self).templates(),
            old(self).next_handle() <= final(self).next_handle() <= old(self).next_handle() + 5,
            extends_once(old(log)@, final(log)@),
            old(self).activation(final(self), zone, r, old(log)@, final(log)@, reuse),
            old(self).activation_laws(final(self), zone, old(log)@, final(log)@),
    {
        if let Some((az, ah)) = self.active {
            if az == zone {
                proof {
                    assert(added(log@, log@) =~= Seq::<CacheEffect>::empty());
                }
                return Some(ah);
            }
        }
        if !self.is_loadable(zone) {
            proof {
                assert(added(log@, log@) =~= Seq::<CacheEffect>::empty());
            }
            return None;
        }
        let ghost pre = *self;
        let ghost log0 = log@;
        let h = match self.slots[zone] {
            Some(p) => {
                self.slots[zone] = None;
                if reuse {
                    p
                } else {
                    log.push(CacheEffect::Destroy { handle: p });
                    let n = self.next_handle;
                    log.push(CacheEffect::Instantiate { zone, handle: n });
                    self.next_handle = n + 1;
                    n
                }
            },
            None => {
                let p = self.next_handle;
                log.push(CacheEffect::Instantiate { zone, handle: p });
                self.next_handle = p + 1;
                p
            },
        };
        if let Some((_, old_h)) = self.active {
            log.push(CacheEffect::Destroy { handle: old_h });
        }
        log.push(CacheEffect::Attach { handle: h });
        self.active = Some((zone, h));
        let ghost log1 = log@;
        let ghost mid = *self;
        proof {
            assert forall|i: int, j: int|
                0 <= i < self.slots@.len() && 0 <= j < self.slots@.len() && i != j && (
                #[trigger] self.slots@[i]) is Some && (#[trigger] self.slots@[j]) is Some
                    implies self.slots@[i]->0 != self.slots@[j]->0 by {
                assert(pre.slots@[i] is Some && pre.slots@[j] is Some);
            }
        }
        self.discard_far(zone, log);
        let ghost base = *self;
        let ghost log2 = log@;
        let links = self.graph.zone_links(zone);
        proof {
            assert(added(log2, log@) =~= Seq::<CacheEffect>::empty());
            assert forall|k: int|
                0 <= k < base.slots@.len() && #[trigger] base.slots@[k] is Some implies base.slots@[k]->0
                    < base.next_handle by {
                assert(pre.slots@[k] is Some);
            }
            assert forall|k: int|
                0 <= k < base.slots@.len() implies (#[trigger] self.slots@[k] is Some <==> (
                base.slots@[k] is Some || (Set::<usize>::empty().contains(k as usize) && k != zone
                    && base.can_load(k)))) by {}
            if let Some(l) = links.left {
                assert(links.contains(l));
            }
            if let Some(l) = links.right {
                assert(links.contains(l));
            }
            if let Some(l) = links.up {
                assert(links.contains(l));
            }
            if let Some(l) = links.down {
                assert(links.contains(l));
            }
        }
        let ghost d0 = Set::<usize>::empty();
        self.preload_neighbor(zone, links.left, log, Ghost(base), Ghost(log2), Ghost(d0));
        let ghost d1 = match links.left {
            Some(i) => d0.insert(i),
            None => d0,
        };
        self.preload_neighbor(zone, links.right, log, Ghost(base), Ghost(log2), Ghost(d1));
        let ghost d2 = match links.right {
            Some(i) => d1.insert(i),
            None => d1,
        };
        self.preload_neighbor(zone, links.up, log, Ghost(base), Ghost(log2), Ghost(d2));
        let ghost d3 = match links.up {
            Some(i) => d2.insert(i),
            None => d2,
        };
        self.preload_neighbor(zone, links.down, log, Ghost(base), Ghost(log2), Ghost(d3));
        let ghost d4 = match links.down {
            Some(i) => d3.insert(i),
            None => d3,
        };
        proof {
            let nb = pre.graph().neighbor_set(zone as int);
            let a = added(log0, log1);
            let d = added(log1, log2);
            let f = added(log2, log@);
            assert(base.slots.len() == base.slots@.len());
            assert forall|k: usize| #[trigger] d4.contains(k) <==> nb.contains(k) by {}
            // The opening effects.
            let att = CacheEffect::Attach { handle: h };
            let ins = CacheEffect::Instantiate { zone, handle: h };
            let had = pre.preloads().contains_key(zone);
            let kept = reuse && had;
            let dp = CacheEffect::Destroy { handle: pre.slots@[zone as int]->0 };
            if had {
                assert(pre.slots@[zone as int] is Some);
            }
            assert(a.no_duplicates() && forall|e: CacheEffect| #[trigger] a.contains(e) <==> {
                ||| (e == dp && had && !reuse)
                ||| (e == ins && !kept)
                ||| (pre.active matches Some((_, o)) && e == CacheEffect::Destroy { handle: o })
                ||| e == att
            }) by {
                if let Some((_, o)) = pre.active {
                    let des = CacheEffect::Destroy { handle: o };
                    if kept {
                        assert(a =~= seq![des, att]);
                        assert(a[0] == des && a[1] == att);
                    } else if had {
                        assert(a =~= seq![dp, ins, des, att]);
                        assert(a[0] == dp && a[1] == ins && a[2] == des && a[3] == att);
                    } else {
                        assert(a =~= seq![ins, des, att]);
                        assert(a[0] == ins && a[1] == des && a[2] == att);
                    }
                } else {
                    if kept {
                        assert(a =~= seq![att]);
                        assert(a[0] == att);
                    } else if had {
                        assert(a =~= seq![dp, ins, att]);
                        assert(a[0] == dp && a[1] == ins && a[2] == att);
                    } else {
                        assert(a =~= seq![ins, att]);
                        assert(a[0] == ins && a[1] == att);
                    }
                }
            }
            assert forall|e: CacheEffect| a.contains(e) implies !#[trigger] d.contains(e) by {
                if d.contains(e) {
                    assert(e is Destroy);
                    let g = e->Destroy_handle;
                    assert(d.contains(CacheEffect::Destroy { handle: g }));
                    let k = choose|k: int|
                        0 <= k < mid.slots@.len() && #[trigger] mid.slots@[k] == Some(g)
                            && !nb.contains(k as usize);
                    assert(pre.slots@[k] is Some);
                    if had {
                        assert(pre.slots@[zone as int] is Some);
                    }
                }
            }
            lemma_concat(a, d);
            assert forall|e: CacheEffect| (a + d).contains(e) implies !#[trigger] f.contains(e) by {
                if f.contains(e) {
                    assert(e is Instantiate);
                    let k = e->Instantiate_zone;
                    let g = e->Instantiate_handle;
                    assert(f.contains(CacheEffect::Instantiate { zone: k, handle: g }));
                    assert(base.next_handle <= g);
                }
            }
            lemma_concat(a + d, f);
            assert(added(log0, log@) =~= (a + d) + f);
            assert(log1.subrange(0, log0.len() as int) =~= log0);
            assert(log2.subrange(0, log1.len() as int) =~= log1);
            assert(log@.subrange(0, log2.len() as int) =~= log2);
            assert(log@.subrange(0, log0.len() as int) =~= log0) by {
                assert(log@.subrange(0, log0.len() as int) =~= log2.subrange(0, log0.len() as int));
                assert(log2.subrange(0, log0.len() as int) =~= log1.subrange(0, log0.len() as int));
            }
            // Well-formedness of the result.
            assert(self.slots@[zone as int] is None) by {
                assert(base.slots@[zone as int] is None);
            }
            assert forall|k: int|
                0 <= k < self.slots@.len() && #[trigger] self.slots@[k] is Some implies {
                    &&& self.slots@[k]->0 < self.next_handle
                    &&& self.slots@[k]->0 != h
                } by {
                if base.slots@[k] is Some {
                    assert(mid.slots@[k] is Some);
                    assert(pre.slots@[k] is Some);
                    if kept {
                        assert(pre.slots@[zone as int] is Some);
                    }
                }
            }
            assert forall|k: usize|
                #[trigger] self.preloads().contains_key(k) <==> pre.expected_preloads(zone).contains(k) by {
                if k < self.slots@.len() {
                    assert(self.slots@[k as int] is Some <==> (base.slots@[k as int] is Some || (d4.contains(k) && k != zone && base.can_load(k as int))));
                    if base.slots@[k as int] is Some {
                        assert(mid.slots@[k as int] is Some);
                        assert(pre.slots@[k as int] is Some);
                        assert(pre.preloads().contains_key(k));
                    }
                }
            }
            let post = *self;
            let effs = added(log0, log@);
            if forall|k: usize| #[trigger] nb.contains(k) ==> pre.can_load(k as int) {
                assert(post.preloads().dom() =~= nb.remove(zone));
            }
            assert forall|k: usize|
                #[trigger] pre.preloads().contains_key(k) && k != zone && !nb.contains(k) implies !post.holds(
                    pre.preloads()[k],
                ) by {
                let g = pre.preloads()[k];
                if post.holds(g) {
                    if !(post.active matches Some((_, o)) && o == g) {
                        let j = choose|j: usize| #[trigger] post.preloads().contains_key(j) && post.preloads()[j] == g;
                        if pre.preloads().contains_key(j) {
                            assert(post.preloads()[j] == pre.preloads()[j]);
                            assert(pre.slots@[j as int] is Some && pre.slots@[k as int] is Some);
                        } else {
                            assert(pre.slots@[k as int] is Some);
                        }
                    } else {
                        if kept {
                            assert(pre.slots@[zone as int] is Some && pre.slots@[k as int] is Some);
                        } else {
                            assert(pre.slots@[k as int] is Some);
                        }
                    }
                }
            }
            assert(post.preloads().dom() =~= pre.expected_preloads(zone));
            assert forall|k: usize|
                #[trigger] post.preloads().contains_key(k) implies (if pre.preloads().contains_key(k) {
                    post.preloads()[k] == pre.preloads()[k]
                } else {
                    pre.next_handle() <= post.preloads()[k] < post.next_handle()
                }) by {
                if base.slots@[k as int] is Some {
                    assert(mid.slots@[k as int] is Some);
                } else {
                    assert(mid.slots@[k as int] is None || !nb.contains(k));
                    if pre.preloads().contains_key(k) {
                        assert(nb.contains(k));
                    }
                }
            }
            assert forall|g: u64| #[trigger] effs.contains(CacheEffect::Destroy { handle: g })
                <==> (pre.evicts(zone, g) || (!reuse && had && g == pre.preloads()[zone])) by {
                let e = CacheEffect::Destroy { handle: g };
                if d.contains(e) {
                    let k = choose|k: int|
                        0 <= k < mid.slots@.len() && #[trigger] mid.slots@[k] == Some(g)
                            && !nb.contains(k as usize);
                    assert(pre.preloads().contains_key(k as usize));
                }
                if pre.evicts(zone, g) && !(pre.active matches Some((_, o)) && o == g) {
                    let k = choose|k: usize|
                        #[trigger] pre.preloads().contains_key(k) && pre.preloads()[k] == g && k != zone
                            && !nb.contains(k);
                    assert(mid.slots@[k as int] == Some(g));
                    assert(d.contains(e));
                }
            }
            assert forall|k: usize, g: u64|
                #[trigger] effs.contains(CacheEffect::Instantiate { zone: k, handle: g }) <==> {
                    ||| (k == zone && g == h && !kept)
                    ||| (post.preloads().contains_key(k) && !pre.preloads().contains_key(k)
                        && post.preloads()[k] == g)
                } by {
                let e = CacheEffect::Instantiate { zone: k, handle: g };
                if f.contains(e) {
                    assert(k < base.slots@.len() && base.slots@[k as int] is None);
                    assert(post.preloads().contains_key(k));
                    if pre.preloads().contains_key(k) {
                        assert(nb.contains(k));
                        assert(mid.slots@[k as int] is Some);
                    }
                }
                if post.preloads().contains_key(k) && !pre.preloads().contains_key(k)
                    && post.preloads()[k] == g {
                    assert(mid.slots@[k as int] is None);
                    assert(f.contains(e));
                }
            }
        }
        Some(h)
    }

    /// Makes `zone` the active zone. When it already is, nothing changes.
    /// When its template cannot be instantiated, nothing changes and the
    /// result is `None`. Otherwise its preloaded instance is taken, or a new
    /// one created; the previous active instance is destroyed; the new one is
    /// attached; and the preloads are brought to the neighbours of `zone`:
    /// stale ones destroyed, missing ones created. The effects are appended
    /// to `log`, each at most once, and the graph is left as it was.
    pub fn activate(&mut self, zone: usize, log: &mut Vec<CacheEffect>) -> (r: Option<u64>)
        requires
            old(self).wf(),
            old(self).next_handle() + 5 <= u64::MAX,
        ensures
            final(self).wf(),
            final(self).graph() == old(self).graph(),
            final(self).templates() == old(self).templates(),
            old(self).next_handle() <= final(self).next_handle() <= old(self).next_handle() + 5,
            extends_once(old(log)@, final(log)@),
            old(self).activation(final(self), zone, r, old(log)@, final(log)@, true),
            old(self).activation_laws(final(self), zone, old(log)@, final(log)@),
    {
        self.activate_with(zone, true, log)
    }

    /// Like `activate`, but never takes a preloaded instance of `zone`: one
    /// that is preloaded is destroyed, and a new instance is created.
    pub fn activate_fresh(&mut self, zone: usize, log: &mut Vec<CacheEffect>) -> (r: Option<u64>)
        requires
            old(self).wf(),
            old(self).next_handle() + 5 <= u64::MAX,
        ensures
            final(self).wf(),
            final(self).graph() == old(self).graph(),
            final(self).templates() == old(self).templates(),
            old(self).next_handle() <= final(self).next_handle() <= old(self).next_handle() + 5,
            extends_once(old(log)@, final(log)@),
            old(self).activation(final(self), zone, r, old(log)@, final(log)@, false),
            old(self).activation_laws(final(self), zone, old(log)@, final(log)@),
    {
        self.activate_with(zone, false, log)
    }
}

} // verus!
