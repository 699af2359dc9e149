use vstd::prelude::*;

use crate::room_graph::{RoomGraph, ZoneLinks};
use crate::transition::{
    resolve_spawn_anchor, spec_arrival_cooldown, spec_spawn_anchor, spec_step_cooldown,
    step_cooldown, Cooldown, CrossingRules, HorizontalDirection, SceneNode,
    PORTAL_COOLDOWN_FRAMES,
};
use crate::zone_cache::{added, extends_once, CacheEffect, ZoneCache};

verus! {

/// A request, made by a portal the player left, to move the player to
/// another zone. It is only recorded when made, and carried out on the next
/// tick.
#[derive(Clone, Debug)]
pub struct PendingTransfer {
    /// The portal that made the request.
    pub portal_id: i64,
    /// The zone to move to.
    pub target_zone: i64,
    /// The node of the target zone to arrive at, if one is named.
    pub spawn_anchor: Option<String>,
    /// The player's position relative to the portal when it left it.
    pub offset_x: i32,
    pub offset_y: i32,
}

/// Why a portal request was dropped.
#[derive(Copy, Clone, Debug, PartialEq, Eq, Structural)]
pub enum DropReason {
    /// The player arrived at that portal a moment ago.
    Cooldown,
    /// The target is not a zone of the graph.
    OutOfRange,
    /// The target is the zone the player is in.
    SameZone,
}

/// What one tick did.
#[derive(Clone, Debug)]
pub enum TickOutcome {
    /// Nothing.
    Idle,
    /// The player crossed an edge into `zone`: it now belongs to the
    /// instance `handle`, and its position moves by `shift_x`.
    Crossed { zone: usize, handle: u64, shift_x: i32 },
    /// The player reached the edge toward `zone`, whose template cannot be
    /// instantiated; it stays where it was.
    CrossFailed { zone: usize },
    /// A portal request was dropped.
    PortalDropped { reason: DropReason },
    /// A portal request to `zone` failed: its template cannot be
    /// instantiated; the player stays where it was.
    PortalFailed { zone: usize },
    /// The player was moved by portal into `zone`, and belongs to the new
    /// instance `handle`. Its place is settled by `complete_arrival`, once the
    /// nodes of the new instance are known.
    PortalArrived { zone: usize, handle: u64, spawn_anchor: Option<String> },
}

/// Whether a portal request is dropped, and why: the portal is cooling down,
/// the target is not a zone of the graph, or it is the current zone.
pub open spec fn portal_drop(
    cooldown: Option<Cooldown>,
    req: PendingTransfer,
    current: Option<usize>,
    zone_count: nat,
) -> Option<DropReason> {
    if (cooldown matches Some(c) && c.portal_id == req.portal_id) {
        Some(DropReason::Cooldown)
    } else if req.target_zone < 0 || req.target_zone >= zone_count {
        Some(DropReason::OutOfRange)
    } else if current == Some(req.target_zone as usize) {
        Some(DropReason::SameZone)
    } else {
        None
    }
}

/// The edge a player at `x` with velocity `vx` crosses, and the neighbour
/// beyond it: the right edge is tried first.
pub open spec fn crossing(rules: CrossingRules, links: ZoneLinks, x: int, vx: int) -> Option<
    (usize, HorizontalDirection),
> {
    if links.right is Some && rules.spec_crosses_right(x, vx) {
        Some((links.right->0, HorizontalDirection::Right))
    } else if links.left is Some && rules.spec_crosses_left(x, vx) {
        Some((links.left->0, HorizontalDirection::Left))
    } else {
        None
    }
}

/// How far the player's position moves when it leaves by `dir`.
pub open spec fn spec_shift(rules: CrossingRules, dir: HorizontalDirection) -> int {
    match dir {
        HorizontalDirection::Right => -rules.zone_width,
        HorizontalDirection::Left => rules.zone_width as int,
    }
}

/// Streams the zones of a world around a single player: the zone cache, the
/// rules for crossing edges, and the portal requests and cooldown.
pub struct World {
    cache: ZoneCache,
    rules: CrossingRules,
    player_parent: Option<u64>,
    pending: Option<PendingTransfer>,
    cooldown: Option<Cooldown>,
    arrival: Option<(i32, i32)>,
}

impl World {
    pub closed spec fn cache(&self) -> ZoneCache {
        self.cache
    }

    pub closed spec fn rules(&self) -> CrossingRules {
        self.rules
    }

    /// The instance the player belongs to, once it has been placed.
    pub closed spec fn player_parent(&self) -> Option<u64> {
        self.player_parent
    }

    /// The portal request waiting for the next tick.
    pub closed spec fn pending(&self) -> Option<PendingTransfer> {
        self.pending
    }

    pub closed spec fn cooldown(&self) -> Option<Cooldown> {
        self.cooldown
    }

    /// The offset of a portal arrival that waits for its anchor.
    pub closed spec fn arrival(&self) -> Option<(i32, i32)> {
        self.arrival
    }

    /// The cache is well formed, the rules are, and a placed player belongs
    /// to the active instance.
    pub open spec fn wf(&self) -> bool {
        &&& self.cache().wf()
        &&& self.rules().wf()
        &&& self.player_parent() matches Some(h) ==> self.cache().active_handle() == Some(h)
        &&& self.arrival() is Some ==> self.player_parent() is Some
    }

    /// Nothing of the live scene changed: the cache, the player's instance
    /// and the effects asked for.
    pub open spec fn scene_kept(
        &self,
        post: &World,
        old_log: Seq<CacheEffect>,
        new_log: Seq<CacheEffect>,
    ) -> bool {
        &&& post.cache() == self.cache()
        &&& post.player_parent() == self.player_parent()
        &&& new_log == old_log
    }

    /// A world over `graph` with no zone active and no player placed; zone
    /// `z` can be instantiated when `loadable[z]` is true.
    pub fn new(graph: RoomGraph, loadable: Vec<bool>, rules: CrossingRules) -> (r: Self)
        requires
            graph.wf(),
            rules.wf(),
        ensures
            r.wf(),
            r.cache().graph() == graph,
            r.cache().active() is None,
            r.cache().next_handle() == 0,
            forall|z: int| #[trigger] r.cache().can_load(z) <==> 0 <= z < graph.len() && z
                < loadable@.len() && loadable@[z],
            r.rules() == rules,
            r.player_parent() is None,
            r.pending() is None,
            r.cooldown() is None,
            r.arrival() is None,
    {
        World {
            cache: ZoneCache::new(graph, loadable),
            rules,
            player_parent: None,
            pending: None,
            cooldown: None,
            arrival: None,
        }
    }

    /// The zone cache.
    pub fn zones(&self) -> (r: &ZoneCache)
        ensures
            *r == self.cache(),
    {
        &self.cache
    }

    /// The instance the player belongs to, once placed.
    pub fn player_instance(&self) -> (r: Option<u64>)
        ensures
            r == self.player_parent(),
    {
        self.player_parent
    }

    /// The cooldown in force, if any.
    pub fn current_cooldown(&self) -> (r: Option<Cooldown>)
        ensures
            r == self.cooldown(),
    {
        self.cooldown
    }

    /// Whether a portal request waits for the next tick.
    pub fn has_pending_transfer(&self) -> (r: bool)
        ensures
            r == self.pending() is Some,
    {
        self.pending.is_some()
    }

    /// Activates the room named `room_name` and places the player in it.
    /// When no room has that name, or its template cannot be instantiated,
    /// nothing changes and the result is `None`.
    pub fn spawn_room(&mut self, room_name: &str, log: &mut Vec<CacheEffect>) -> (r: Option<u64>)
        requires
            old(self).wf(),
            old(self).cache().next_handle() + 5 <= u64::MAX,
        ensures
            final(self).wf(),
            final(self).rules() == old(self).rules(),
            final(self).pending() == old(self).pending(),
            final(self).cooldown() == old(self).cooldown(),
            final(self).cache().graph() == old(self).cache().graph(),
            final(self).cache().templates() == old(self).cache().templates(),
            old(self).cache().next_handle() <= final(self).cache().next_handle()
                <= old(self).cache().next_handle() + 5,
            extends_once(old(log)@, final(log)@),
            ({
                let g = old(self).cache().graph();
                match g.spec_index_of(room_name@) {
                    None => r is None && old(self).scene_kept(final(self), old(log)@, final(log)@)
                        && final(self).arrival() == old(self).arrival(),
                    Some(z) => if old(self).cache().active_zone() == Some(z as usize) {
                        &&& r == old(self).cache().active_handle()
                        &&& final(self).cache() == old(self).cache()
                        &&& final(log)@ == old(log)@
                        &&& final(self).player_parent() == r
                        &&& final(self).arrival() is None
                    } else if !old(self).cache().can_load(z) {
                        r is None && old(self).scene_kept(final(self), old(log)@, final(log)@)
                            && final(self).arrival() == old(self).arrival()
                    } else {
                        &&& r is Some
                        &&& old(self).cache().activated(
                            &final(self).cache(),
                            z as usize,
                            r->0,
                            added(old(log)@, final(log)@),
                        )
                        &&& final(self).player_parent() == r
                        &&& final(self).arrival() is None
                    },
                }
            }),
    {
        let z = match self.cache.graph_ref().index_of(room_name) {
            Some(z) => z,
            None => {
                proof {
                    assert(added(log@, log@) =~= Seq::<CacheEffect>::empty());
                }
                return None;
            },
        };
        let r = self.cache.activate(z, log);
        if r.is_some() {
            self.player_parent = r;
            self.arrival = None;
        }
        r
    }

    /// Records a portal request for the next tick, in place of any that
    /// waits. Nothing else changes.
    pub fn queue_transfer(&mut self, request: PendingTransfer)
        ensures
            final(self).pending() == Some(request),
            final(self).cache() == old(self).cache(),
            final(self).player_parent() == old(self).player_parent(),
            final(self).cooldown() == old(self).cooldown(),
            final(self).arrival() == old(self).arrival(),
            final(self).rules() == old(self).rules(),
            old(self).wf() ==> final(self).wf(),
    {
        self.pending = Some(request);
    }

    /// What a tick that drains `req` under the cooldown `c1` leaves.
    pub open spec fn portal_step(
        &self,
        c1: Option<Cooldown>,
        post: &World,
        req: PendingTransfer,
        r: TickOutcome,
        old_log: Seq<CacheEffect>,
        new_log: Seq<CacheEffect>,
    ) -> bool {
        match portal_drop(c1, req, self.cache().active_zone(), self.cache().graph().len()) {
            Some(reason) => {
                &&& r == TickOutcome::PortalDropped { reason }
                &&& self.scene_kept(post, old_log, new_log)
                &&& post.arrival() is None
            },
            None => {
                let t = req.target_zone as usize;
                if !self.cache().can_load(t as int) {
                    &&& r == TickOutcome::PortalFailed { zone: t }
                    &&& self.scene_kept(post, old_log, new_log)
                    &&& post.arrival() is None
                } else {
                    &&& post.player_parent() is Some
                    &&& r == TickOutcome::PortalArrived {
                        zone: t,
                        handle: post.player_parent()->0,
                        spawn_anchor: req.spawn_anchor,
                    }
                    &&& self.cache().activated_by(
                        &post.cache(),
                        t,
                        post.player_parent()->0,
                        added(old_log, new_log),
                        false,
                    )
                    &&& self.cache().next_handle() <= post.player_parent()->0
                    &&& (self.cache().preloads().contains_key(t) ==> added(old_log, new_log).contains(
                        CacheEffect::Destroy { handle: self.cache().preloads()[t] },
                    ))
                    &&& post.arrival() == Some((req.offset_x, req.offset_y))
                }
            },
        }
    }

    /// What a tick that checks the edges of the current zone for a player at
    /// `x` with velocity `vx` leaves.
    pub open spec fn crossing_step(
        &self,
        post: &World,
        x: int,
        vx: int,
        r: TickOutcome,
        old_log: Seq<CacheEffect>,
        new_log: Seq<CacheEffect>,
    ) -> bool {
        let cur = self.cache().active_zone()->0;
        &&& post.arrival() is None
        &&& match crossing(self.rules(), self.cache().graph().links_of(cur as int), x, vx) {
            None => r == TickOutcome::Idle && self.scene_kept(post, old_log, new_log),
            Some((t, dir)) => {
                let s = spec_shift(self.rules(), dir) as i32;
                if t == cur {
                    &&& r == TickOutcome::Crossed {
                        zone: t,
                        handle: self.player_parent()->0,
                        shift_x: s,
                    }
                    &&& self.scene_kept(post, old_log, new_log)
                } else if !self.cache().can_load(t as int) {
                    &&& r == TickOutcome::CrossFailed { zone: t }
                    &&& self.scene_kept(post, old_log, new_log)
                } else {
                    &&& post.player_parent() is Some
                    &&& r == TickOutcome::Crossed {
                        zone: t,
                        handle: post.player_parent()->0,
                        shift_x: s,
                    }
                    &&& self.cache().activated(
                        &post.cache(),
                        t,
                        post.player_parent()->0,
                        added(old_log, new_log),
                    )
                }
            },
        }
    }

    /// Moves the player into `target`, reached by leaving by `dir`.
    fn transfer_player(
        &mut self,
        target: usize,
        dir: HorizontalDirection,
        log: &mut Vec<CacheEffect>,
    ) -> (r: TickOutcome)
        requires
            old(self).wf(),
            old(self).player_parent() is Some,
            old(self).arrival() is None,
            old(self).cache().next_handle() + 5 <= u64::MAX,
        ensures
            final(self).wf(),
            final(self).rules() == old(self).rules(),
            final(self).pending() == old(self).pending(),
            final(self).cooldown() == old(self).cooldown(),
            final(self).arrival() is None,
            final(self).cache().graph() == old(self).cache().graph(),
            final(self).cache().templates() == old(self).cache().templates(),
            old(self).cache().next_handle() <= final(self).cache().next_handle()
                <= old(self).cache().next_handle() + 5,
            extends_once(old(log)@, final(log)@),
            ({
                let s = spec_shift(old(self).rules(), dir) as i32;
                if old(self).cache().active_zone() == Some(target) {
                    &&& r == TickOutcome::Crossed {
                        zone: target,
                        handle: old(self).player_parent()->0,
                        shift_x: s,
                    }
                    &&& old(self).scene_kept(final(self), old(log)@, final(log)@)
                } else if !old(self).cache().can_load(target as int) {
                    &&& r == TickOutcome::CrossFailed { zone: target }
                    &&& old(self).scene_kept(final(self), old(log)@, final(log)@)
                } else {
                    &&& final(self).player_parent() is Some
                    &&& r == TickOutcome::Crossed {
                        zone: target,
                        handle: final(self).player_parent()->0,
                        shift_x: s,
                    }
                    &&& old(self).cache().activated(
                        &final(self).cache(),
                        target,
                        final(self).player_parent()->0,
                        added(old(log)@, final(log)@),
                    )
                }
            }),
    {
        let shift_x = self.rules.shift_for(dir);
        match self.cache.activate(target, log) {
            Some(h) => {
                self.player_parent = Some(h);
                TickOutcome::Crossed { zone: target, handle: h, shift_x }
            },
            None => TickOutcome::CrossFailed { zone: target },
        }
    }

    /// Looks for an edge the player has crossed, right before left, and
    /// moves it into the neighbour beyond.
    fn check_horizontal_transitions(&mut self, x: i32, vx: i32, log: &mut Vec<CacheEffect>) -> (r:
        TickOutcome)
        requires
            old(self).wf(),
            old(self).player_parent() is Some,
            old(self).arrival() is None,
            old(self).cache().next_handle() + 5 <= u64::MAX,
        ensures
            final(self).wf(),
            final(self).rules() == old(self).rules(),
            final(self).pending() == old(self).pending(),
            final(self).cooldown() == old(self).cooldown(),
            final(self).cache().graph() == old(self).cache().graph(),
            final(self).cache().templates() == old(self).cache().templates(),
            old(self).cache().next_handle() <= final(self).cache().next_handle()
                <= old(self).cache().next_handle() + 5,
            extends_once(old(log)@, final(log)@),
            old(self).crossing_step(final(self), x as int, vx as int, r, old(log)@, final(log)@),
    {
        let cur = match self.cache.current_zone() {
            Some(z) => z,
            None => {
                return TickOutcome::Idle;
            },
        };
        let links = self.cache.graph_ref().zone_links(cur);
        if let Some(t) = links.right {
            if self.rules.crosses_right(x, vx) {
                return self.transfer_player(t, HorizontalDirection::Right, log);
            }
        }
        if let Some(t) = links.left {
            if self.rules.crosses_left(x, vx) {
                return self.transfer_player(t, HorizontalDirection::Left, log);
            }
        }
        proof {
            assert(added(log@, log@) =~= Seq::<CacheEffect>::empty());
        }
        TickOutcome::Idle
    }

    /// Carries out or drops the portal request `req`. A portal target is
    /// always instantiated anew: a preloaded instance of it is destroyed.
    fn drain_portal(&mut self, req: PendingTransfer, log: &mut Vec<CacheEffect>) -> (r: TickOutcome)
        requires
            old(self).wf(),
            old(self).player_parent() is Some,
            old(self).arrival() is None,
            old(self).cache().next_handle() + 5 <= u64::MAX,
        ensures
            final(self).wf(),
            final(self).rules() == old(self).rules(),
            final(self).pending() == old(self).pending(),
            final(self).cooldown() == old(self).cooldown(),
            final(self).cache().graph() == old(self).cache().graph(),
            final(self).cache().templates() == old(self).cache().templates(),
            old(self).cache().next_handle() <= final(self).cache().next_handle()
                <= old(self).cache().next_handle() + 5,
            extends_once(old(log)@, final(log)@),
            old(self).portal_step(old(self).cooldown(), final(self), req, r, old(log)@, final(log)@),
    {
        proof {
            assert(added(log@, log@) =~= Seq::<CacheEffect>::empty());
        }
        if let Some(c) = self.cooldown {
            if c.portal_id == req.portal_id {
                return TickOutcome::PortalDropped { reason: DropReason::Cooldown };
            }
        }
        let n = self.cache.graph_ref().zone_count();
        if req.target_zone < 0 || req.target_zone as u64 >= n as u64 {
            return TickOutcome::PortalDropped { reason: DropReason::OutOfRange };
        }
        let t = req.target_zone as usize;
        if self.cache.current_zone() == Some(t) {
            return TickOutcome::PortalDropped { reason: DropReason::SameZone };
        }
        match self.cache.activate_fresh(t, log) {
            Some(h) => {
                self.player_parent = Some(h);
                self.arrival = Some((req.offset_x, req.offset_y));
                TickOutcome::PortalArrived { zone: t, handle: h, spawn_anchor: req.spawn_anchor }
            },
            None => TickOutcome::PortalFailed { zone: t },
        }
    }

    /// One step of the simulation, for a player at `x` with horizontal
    /// velocity `vx`. The cooldown loses a frame first. Before the player is
    /// placed nothing else happens. Then a waiting portal request is drained:
    /// dropped, failed or carried out; or, when none waits, the edges of the
    /// current zone are checked, right before left. A failed move leaves
    /// the player, the zones and the log as they were.
    pub fn tick(&mut self, x: i32, vx: i32, log: &mut Vec<CacheEffect>) -> (r: TickOutcome)
        requires
            old(self).wf(),
            old(self).cache().next_handle() + 5 <= u64::MAX,
        ensures
            final(self).wf(),
            final(self).rules() == old(self).rules(),
            final(self).cache().graph() == old(self).cache().graph(),
            final(self).cache().templates() == old(self).cache().templates(),
            old(self).cache().next_handle() <= final(self).cache().next_handle()
                <= old(self).cache().next_handle() + 5,
            final(self).cooldown() == spec_step_cooldown(old(self).cooldown()),
            extends_once(old(log)@, final(log)@),
            old(self).player_parent() is None ==> {
                &&& r == TickOutcome::Idle
                &&& old(self).scene_kept(final(self), old(log)@, final(log)@)
                &&& final(self).pending() == old(self).pending()
            },
            old(self).player_parent() is Some ==> final(self).pending() is None,
            old(self).player_parent() is Some ==> match old(self).pending() {
                Some(req) => old(self).portal_step(
                    spec_step_cooldown(old(self).cooldown()),
                    final(self),
                    req,
                    r,
                    old(log)@,
                    final(log)@,
                ),
                None => old(self).crossing_step(
                    final(self),
                    x as int,
                    vx as int,
                    r,
                    old(log)@,
                    final(log)@,
                ),
            },
            r is PortalFailed ==> final(self).player_parent() == old(self).player_parent(),
    {
        self.arrival = None;
        self.cooldown = step_cooldown(self.cooldown);
        if self.player_parent.is_none() {
            proof {
                assert(added(log@, log@) =~= Seq::<CacheEffect>::empty());
            }
            return TickOutcome::Idle;
        }
        match self.pending.take() {
            Some(req) => self.drain_portal(req, log),
            None => self.check_horizontal_transitions(x, vx, log),
        }
    }

    /// Settles a portal arrival once the new instance's nodes are known:
    /// `named` is the node the request named, if it was found; `nodes` are
    /// the instance's nodes in depth-first order; `origin` is the instance's
    /// own origin. The player goes to the anchor plus the request's offset,
    /// and a cooldown is armed on the anchor if it is a portal, or cleared
    /// if not. With no arrival waiting, nothing changes.
    pub fn complete_arrival(
        &mut self,
        named: Option<SceneNode>,
        nodes: &Vec<SceneNode>,
        origin: SceneNode,
    ) -> (r: Option<(i64, i64)>)
        requires
            old(self).wf(),
        ensures
            final(self).wf(),
            final(self).cache() == old(self).cache(),
            final(self).player_parent() == old(self).player_parent(),
            final(self).pending() == old(self).pending(),
            final(self).rules() == old(self).rules(),
            final(self).arrival() is None,
            old(self).arrival() is None ==> r is None && final(self).cooldown() == old(self).cooldown(),
            old(self).arrival() matches Some((ox, oy)) ==> {
                let a = spec_spawn_anchor(named, nodes@, origin);
                &&& r == Some(((a.x + ox) as i64, (a.y + oy) as i64))
                &&& final(self).cooldown() == spec_arrival_cooldown(a)
            },
    {
        let (ox, oy) = match self.arrival {
            Some(o) => o,
            None => {
                return None;
            },
        };
        let a = resolve_spawn_anchor(named, nodes, origin);
        self.arrival = None;
        self.cooldown = match a.portal_id {
            Some(p) => Some(Cooldown { portal_id: p, frames_remaining: PORTAL_COOLDOWN_FRAMES }),
            None => None,
        };
        Some((a.x as i64 + ox as i64, a.y as i64 + oy as i64))
    }
}

} // verus!
