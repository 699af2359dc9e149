use vstd::prelude::*;
use vstd::string::StringSliceAdditionalSpecFns;

verus! {

/// The neighbours of a room, by name, in the four directions.
#[derive(Copy, Clone, Debug)]
pub struct RoomNeighbors {
    pub left: Option<&'static str>,
    pub right: Option<&'static str>,
    pub up: Option<&'static str>,
    pub down: Option<&'static str>,
}

/// The neighbours of a zone, by zone index, in the four directions.
#[derive(Copy, Clone, Debug, PartialEq, Eq, Structural)]
pub struct ZoneLinks {
    pub left: Option<usize>,
    pub right: Option<usize>,
    pub up: Option<usize>,
    pub down: Option<usize>,
}

impl ZoneLinks {
    /// Whether `k` is one of the four neighbours.
    pub open spec fn contains(self, k: usize) -> bool {
        self.left == Some(k) || self.right == Some(k) || self.up == Some(k) || self.down == Some(k)
    }

    /// Every neighbour index is below `n`.
    pub open spec fn bounded(self, n: nat) -> bool {
        forall|k: usize| self.contains(k) ==> k < n
    }

    pub open spec fn spec_none() -> ZoneLinks {
        ZoneLinks { left: None, right: None, up: None, down: None }
    }

    /// Links with no neighbour in any direction.
    pub fn none() -> (r: ZoneLinks)
        ensures
            r == ZoneLinks::spec_none(),
    {
        ZoneLinks { left: None, right: None, up: None, down: None }
    }
}

/// Whether two strings hold the same characters.
fn same_text(a: &str, b: &str) -> (r: bool)
    ensures
        r == (a@ == b@),
{
    let x = a.as_bytes();
    let y = b.as_bytes();
    proof {
        vstd::utf8::encode_utf8_decode_utf8(a@);
        vstd::utf8::encode_utf8_decode_utf8(b@);
    }
    if x.len() != y.len() {
        return false;
    }
    let mut i: usize = 0;
    while i < x.len()
        invariant
            x@ == a.spec_bytes(),
            y@ == b.spec_bytes(),
            x@.len() == y@.len(),
            i <= x@.len(),
            forall|j: int| 0 <= j < i ==> x@[j] == y@[j],
        decreases x@.len() - i,
    {
        if x[i] != y[i] {
            return false;
        }
        i = i + 1;
    }
    assert(x@ =~= y@);
    true
}

/// The static adjacency graph of the world: each zone has a name and up to
/// four neighbours. Zones are numbered by their position in the graph.
pub struct RoomGraph {
    names: Vec<&'static str>,
    links: Vec<ZoneLinks>,
}

impl RoomGraph {
    /// The names of the zones, by index.
    pub closed spec fn names(&self) -> Seq<&'static str> {
        self.names@
    }

    /// The links of the zones, by index.
    pub closed spec fn zones(&self) -> Seq<ZoneLinks> {
        self.links@
    }

    /// Number of zones.
    pub open spec fn len(&self) -> nat {
        self.zones().len()
    }

    /// Names and links agree in number, names are distinct, and every link
    /// points at a zone of the graph.
    pub open spec fn wf(&self) -> bool {
        &&& self.names().len() == self.zones().len()
        &&& forall|i: int| 0 <= i < self.len() ==> (#[trigger] self.zones()[i]).bounded(self.len())
        &&& forall|i: int, j: int|
            0 <= i < self.len() && 0 <= j < self.len() && i != j
                ==> (#[trigger] self.names()[i])@ != (#[trigger] self.names()[j])@
    }

    /// The links of zone `z`; an unknown zone has no neighbours.
    pub open spec fn links_of(&self, z: int) -> ZoneLinks {
        if 0 <= z < self.len() {
            self.zones()[z]
        } else {
            ZoneLinks::spec_none()
        }
    }

    /// The set of neighbours of zone `z`.
    pub open spec fn neighbor_set(&self, z: int) -> Set<usize> {
        Set::new(|k: usize| self.links_of(z).contains(k))
    }

    /// The index of the zone named `name`, if any.
    pub open spec fn spec_index_of(&self, name: Seq<char>) -> Option<int> {
        if exists|i: int| 0 <= i < self.len() && (#[trigger] self.names()[i])@ == name {
            Some(choose|i: int| 0 <= i < self.len() && (#[trigger] self.names()[i])@ == name)
        } else {
            None
        }
    }

    /// A name for each neighbour index.
    pub open spec fn name_of(&self, k: Option<usize>) -> Option<&'static str> {
        match k {
            Some(i) => Some(self.names()[i as int]),
            None => None,
        }
    }

    /// The three rooms of the world, side by side from left to right.
    pub fn new() -> (r: Self)
        ensures
            r.wf(),
            r.len() == 3,
            r.names()[0]@ == "room_0_0"@,
            r.names()[1]@ == "room_1_0"@,
            r.names()[2]@ == "room_2_0"@,
            r.zones()[0] == (ZoneLinks { left: None, right: Some(1), up: None, down: None }),
            r.zones()[1] == (ZoneLinks { left: Some(0), right: Some(2), up: None, down: None }),
            r.zones()[2] == (ZoneLinks { left: Some(1), right: None, up: None, down: None }),
    {
        let mut names: Vec<&'static str> = Vec::new();
        let mut links: Vec<ZoneLinks> = Vec::new();
        names.push("room_0_0");
        links.push(ZoneLinks { left: None, right: Some(1), up: None, down: None });
        names.push("room_1_0");
        links.push(ZoneLinks { left: Some(0), right: Some(2), up: None, down: None });
        names.push("room_2_0");
        links.push(ZoneLinks { left: Some(1), right: None, up: None, down: None });
        proof {
            reveal_strlit("room_0_0");
            reveal_strlit("room_1_0");
            reveal_strlit("room_2_0");
            assert(names@[0]@ != names@[1]@ && names@[0]@ != names@[2]@ && names@[1]@ != names@[2]@) by {
                assert(names@[0]@[5] != names@[1]@[5]);
                assert(names@[0]@[5] != names@[2]@[5]);
                assert(names@[1]@[5] != names@[2]@[5]);
            }
        }
        RoomGraph { names, links }
    }

    /// Number of zones in the graph.
    pub fn zone_count(&self) -> (r: usize)
        requires
            self.wf(),
        ensures
            r == self.len(),
    {
        self.links.len()
    }

    /// The name of zone `z`.
    pub fn room_name(&self, z: usize) -> (r: &'static str)
        requires
            self.wf(),
            z < self.len(),
        ensures
            r == self.names()[z as int],
    {
        self.names[z]
    }

    /// The links of zone `z`; an unknown zone has none.
    pub fn zone_links(&self, z: usize) -> (r: ZoneLinks)
        requires
            self.wf(),
        ensures
            r == self.links_of(z as int),
            r.bounded(self.len()),
    {
        if z < self.links.len() {
            self.links[z]
        } else {
            ZoneLinks::none()
        }
    }

    /// The index of the zone named `name`, if the graph has one.
    pub fn index_of(&self, name: &str) -> (r: Option<usize>)
        requires
            self.wf(),
        ensures
            r matches Some(i) ==> i < self.len() && self.names()[i as int]@ == name@,
            r is None <==> self.spec_index_of(name@) is None,
            r matches Some(i) ==> self.spec_index_of(name@) == Some(i as int),
    {
        let mut i: usize = 0;
        while i < self.names.len()
            invariant
                self.wf(),
                i <= self.len(),
                forall|j: int| 0 <= j < i ==> (#[trigger] self.names()[j])@ != name@,
            decreases self.len() - i,
        {
            if same_text(self.names[i], name) {
                proof {
                    let c = choose|j: int| 0 <= j < self.len() && (#[trigger] self.names()[j])@ == name@;
                    assert(self.names()[c]@ == self.names()[i as int]@);
                }
                return Some(i);
            }
            i = i + 1;
        }
        None
    }

    /// The neighbours of the room named `room_name`, by name; a name that is
    /// not in the graph has no neighbours.
    pub fn get_neighbors(&self, room_name: &str) -> (r: RoomNeighbors)
        requires
            self.wf(),
        ensures
            ({
                let l = match self.spec_index_of(room_name@) {
                    Some(i) => self.links_of(i),
                    None => ZoneLinks::spec_none(),
                };
                &&& r.left == self.name_of(l.left)
                &&& r.right == self.name_of(l.right)
                &&& r.up == self.name_of(l.up)
                &&& r.down == self.name_of(l.down)
            }),
    {
        let l = match self.index_of(room_name) {
            Some(i) => self.links[i],
            None => ZoneLinks::none(),
        };
        proof {
            if let Some(i) = self.spec_index_of(room_name@) {
                assert(self.zones()[i].bounded(self.len()));
            }
            if let Some(k) = l.left {
                assert(l.contains(k));
            }
            if let Some(k) = l.right {
                assert(l.contains(k));
            }
            if let Some(k) = l.up {
                assert(l.contains(k));
            }
            if let Some(k) = l.down {
                assert(l.contains(k));
            }
        }
        RoomNeighbors {
            left: self.name_at(l.left),
            right: self.name_at(l.right),
            up: self.name_at(l.up),
            down: self.name_at(l.down),
        }
    }

    fn name_at(&self, k: Option<usize>) -> (r: Option<&'static str>)
        requires
            self.wf(),
            k matches Some(i) ==> i < self.len(),
        ensures
            r == self.name_of(k),
    {
        match k {
            Some(i) => Some(self.names[i]),
            None => None,
        }
    }

    /// The names of all rooms, in zone order.
    pub fn all_rooms(&self) -> (r: Vec<&'static str>)
        requires
            self.wf(),
        ensures
            r@ == self.names(),
    {
        self.names.clone()
    }
}

} // verus!
