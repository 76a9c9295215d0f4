//! The tiered memoization cache: (position, depth) -> solution results are
//! memoized across an ordered stack of least-recently-used cache devices of
//! increasing capacity, behind one get-or-compute-and-populate operation.
//!
//! Each device stores byte encodings: the key serializes the position and
//! the requested depth (entries are cached per exact depth), the value
//! serializes the solution. The key encoding is injective, so two distinct
//! positions, or two depths, never collide in a cache.

use vstd::prelude::*;
use crate::game::{CI, Game, Loc, Play, Player, RI, Slot};
use crate::solver::{Count, Outcome, Solution, spec_solve};

verus! {

/// The byte that stands for a slot in the key encoding.
pub open spec fn slot_code(s: Slot) -> u8 {
    match s {
        Slot::SE => 0,
        Slot::SX => 1,
        Slot::SO => 2,
    }
}

/// Returns the byte that stands for a slot in the key encoding.
fn slot_code_exec(s: Slot) -> (r: u8)
    ensures
        r == slot_code(s),
{
    match s {
        Slot::SE => 0,
        Slot::SX => 1,
        Slot::SO => 2,
    }
}

/// The byte that stands for a player in the cache encodings.
pub open spec fn player_code(p: Player) -> u8 {
    match p {
        Player::X => 1,
        Player::O => 2,
    }
}

/// Returns the byte that stands for a player in the cache encodings.
fn player_code_exec(p: Player) -> (r: u8)
    ensures
        r == player_code(p),
{
    match p {
        Player::X => 1,
        Player::O => 2,
    }
}

/// The cache key of a (position, depth) query: the 81 slots sub-board by
/// sub-board, then the last-play location (presence flag, row, column),
/// then the requested depth.
pub open spec fn spec_key(g: Game, d: Count) -> Seq<u8> {
    Seq::new(
        85,
        |i: int|
            if i < 81 {
                slot_code(g.board.sboards@[i / 9].slots@[i % 9])
            } else if i == 81 {
                match g.last_loc {
                    None => 0u8,
                    Some(_) => 1u8,
                }
            } else if i == 82 {
                match g.last_loc {
                    None => 0u8,
                    Some(l) => l.row.as_int() as u8,
                }
            } else if i == 83 {
                match g.last_loc {
                    None => 0u8,
                    Some(l) => l.col.as_int() as u8,
                }
            } else {
                d
            },
    )
}

/// Returns the cache key of a (position, depth) query.
pub fn encode_key(g: &Game, d: Count) -> (k: Vec<u8>)
    ensures
        k@ == spec_key(*g, d),
{
    let mut k: Vec<u8> = Vec::new();
    let mut s: usize = 0;
    while s < 9
        invariant
            s <= 9,
            k@.len() == s * 9,
            forall|j: int| 0 <= j < s * 9 ==> k@[j] == spec_key(*g, d)[j],
        decreases 9 - s,
    {
        let mut w: usize = 0;
        while w < 9
            invariant
                s < 9,
                w <= 9,
                k@.len() == s * 9 + w,
                forall|j: int| 0 <= j < s * 9 + w ==> k@[j] == spec_key(*g, d)[j],
            decreases 9 - w,
        {
            let code = slot_code_exec(sb_slot(g, s, w));
            k.push(code);
            proof {
                let i = s * 9 + w;
                assert(i / 9 == s && i % 9 == w) by (nonlinear_arith)
                    requires
                        s < 9,
                        w < 9,
                        i == s * 9 + w,
                ;
                assert(k@[i as int] == spec_key(*g, d)[i as int]);
            }
            w = w + 1;
        }
        s = s + 1;
    }
    match g.last_loc {
        None => {
            k.push(0);
            k.push(0);
            k.push(0);
        },
        Some(l) => {
            k.push(1);
            k.push(l.row.index());
            k.push(l.col.index());
        },
    }
    k.push(d);
    proof {
        assert(k@ =~= spec_key(*g, d));
    }
    k
}

/// Returns the slot of sub-board s at cell w.
fn sb_slot(g: &Game, s: usize, w: usize) -> (r: Slot)
    requires
        s < 9,
        w < 9,
    ensures
        r == g.board.sboards@[s as int].slots@[w as int],
{
    g.board.sboards[s].slots[w]
}

/// The key encoding is injective: equal keys mean equal positions and equal
/// depths, so distinct queries never collide in a cache.
pub proof fn lemma_key_injective(g1: Game, d1: Count, g2: Game, d2: Count)
    requires
        spec_key(g1, d1) == spec_key(g2, d2),
    ensures
        g1 == g2,
        d1 == d2,
{
    let k1 = spec_key(g1, d1);
    let k2 = spec_key(g2, d2);
    assert(k1[84] == k2[84]);
    assert forall|s: int, w: int|
        0 <= s < 9 && 0 <= w < 9 implies g1.board.sboards@[s].slots@[w]
        == g2.board.sboards@[s].slots@[w] by {
        let i = s * 9 + w;
        assert(i / 9 == s && i % 9 == w) by (nonlinear_arith)
            requires
                0 <= s < 9,
                0 <= w < 9,
                i == s * 9 + w,
        ;
        assert(k1[i] == k2[i]);
    }
    assert forall|s: int| 0 <= s < 9 implies g1.board.sboards@[s] == g2.board.sboards@[s] by {
        assert(g1.board.sboards@[s].slots =~= g2.board.sboards@[s].slots);
    }
    assert(g1.board.sboards =~= g2.board.sboards);
    assert(k1[81] == k2[81] && k1[82] == k2[82] && k1[83] == k2[83]);
    match (g1.last_loc, g2.last_loc) {
        (Some(l1), Some(l2)) => {
            assert(l1.row.as_int() == l2.row.as_int());
            assert(l1.col.as_int() == l2.col.as_int());
            assert(l1.row == l2.row);
            assert(l1.col == l2.col);
        },
        (None, None) => {},
        _ => {
            assert(false);
        },
    }
    assert(g1 == g2);
}

/// The byte encoding of an optional recommended play: a presence flag, the
/// row, the column, and the player.
pub open spec fn opt_play_bytes(op: Option<Play>) -> Seq<u8> {
    match op {
        None => seq![0u8, 0u8, 0u8, 0u8],
        Some(p) => seq![
            1u8,
            p.loc.row.as_int() as u8,
            p.loc.col.as_int() as u8,
            player_code(p.player),
        ],
    }
}

/// The byte encoding of an outcome: a tag, a player (or zero), and a count.
pub open spec fn outcome_bytes(o: Outcome) -> Seq<u8> {
    match o {
        Outcome::Win { player, turns } => seq![0u8, player_code(player), turns],
        Outcome::Tie { turns } => seq![1u8, 0u8, turns],
        Outcome::Unknown { depth } => seq![2u8, 0u8, depth],
    }
}

/// The byte encoding of a solution, as stored in a cache device.
pub open spec fn spec_sol_bytes(s: Solution) -> Seq<u8> {
    opt_play_bytes(s.opt_play) + outcome_bytes(s.outcome)
}

/// Returns the byte encoding of a solution.
pub fn encode_solution(s: &Solution) -> (v: Vec<u8>)
    ensures
        v@ == spec_sol_bytes(*s),
{
    let mut v: Vec<u8> = Vec::new();
    match s.opt_play {
        None => {
            v.push(0);
            v.push(0);
            v.push(0);
            v.push(0);
        },
        Some(p) => {
            v.push(1);
            v.push(p.loc.row.index());
            v.push(p.loc.col.index());
            v.push(player_code_exec(p.player));
        },
    }
    match s.outcome {
        Outcome::Win { player, turns } => {
            v.push(0);
            v.push(player_code_exec(player));
            v.push(turns);
        },
        Outcome::Tie { turns } => {
            v.push(1);
            v.push(0);
            v.push(turns);
        },
        Outcome::Unknown { depth } => {
            v.push(2);
            v.push(0);
            v.push(depth);
        },
    }
    proof {
        assert(v@ =~= spec_sol_bytes(*s));
    }
    v
}

/// Returns the solution a byte encoding stands for, if it stands for one:
/// whenever the bytes encode some solution, exactly that solution comes
/// back.
pub fn decode_solution(v: &Vec<u8>) -> (r: Option<Solution>)
    ensures
        forall|s: Solution| v@ == spec_sol_bytes(s) ==> r == Some(s),
{
    proof {
        lemma_ri_ci_roundtrip();
    }
    if v.len() != 7 {
        return None;
    }
    let b0 = *vget(v, 0);
    let opt_play: Option<Play> = if b0 == 0 {
        None
    } else if b0 == 1 {
        let rb = *vget(v, 1);
        let cb = *vget(v, 2);
        let pb = *vget(v, 3);
        if rb >= 9 || cb >= 9 {
            return None;
        }
        let pl = if pb == 1 {
            Player::X
        } else if pb == 2 {
            Player::O
        } else {
            return None;
        };
        Some(Play { loc: Loc { row: RI::from_index(rb), col: CI::from_index(cb) }, player: pl })
    } else {
        return None;
    };
    let tag = *vget(v, 4);
    let wb = *vget(v, 5);
    let nb = *vget(v, 6);
    let outcome: Outcome = if tag == 0 {
        let pl = if wb == 1 {
            Player::X
        } else if wb == 2 {
            Player::O
        } else {
            return None;
        };
        Outcome::Win { player: pl, turns: nb }
    } else if tag == 1 {
        Outcome::Tie { turns: nb }
    } else if tag == 2 {
        Outcome::Unknown { depth: nb }
    } else {
        return None;
    };
    Some(Solution { opt_play, outcome })
}

/// Returns the i-th byte of the vector.
fn vget(v: &Vec<u8>, i: usize) -> (r: &u8)
    requires
        i < v@.len(),
    ensures
        *r == v@[i as int],
{
    &v[i]
}

/// Every row or column index is recovered from its own number.
proof fn lemma_ri_ci_roundtrip()
    ensures
        forall|r: RI| #[trigger] RI::spec_from_index(r.as_int()) == r,
        forall|c: CI| #[trigger] CI::spec_from_index(c.as_int()) == c,
{
}

/// The least-recently-used cache of the `lru_time_cache` crate, used as a
/// backing device. Built only through `with_capacity`, so entries never
/// expire by time; they are evicted by capacity alone.
#[verifier::external_type_specification]
#[verifier::external_body]
#[verifier::reject_recursive_types(Key)]
#[verifier::reject_recursive_types(Value)]
pub struct ExLruCache<Key, Value>(lru_time_cache::LruCache<Key, Value>);

/// The backing store of one cache device: solution encodings keyed by
/// (position, depth) encodings.
pub type SolutionStore = lru_time_cache::LruCache<Vec<u8>, Vec<u8>>;

/// A store's key-to-value map with nothing in it.
pub open spec fn empty_store() -> Map<Seq<u8>, Seq<u8>> {
    Map::empty()
}

/// What a byte-keyed cache holds: its key-to-value map.
pub uninterp spec fn lru_contents(c: SolutionStore) -> Map<Seq<u8>, Seq<u8>>;

/// The capacity a byte-keyed cache was built with by `with_capacity`, or
/// none if it was built with a time-to-live (no wrapper here builds one).
pub uninterp spec fn lru_bound(c: SolutionStore) -> Option<usize>;

/// Relies on lru_time_cache::LruCache::with_capacity: the fresh cache is
/// empty, has the given capacity bound, and no time-to-live.
#[verifier::external_body]
fn lru_new(capacity: usize) -> (c: SolutionStore)
    ensures
        lru_bound(c) == Some(capacity),
        lru_contents(c) == empty_store(),
{
    lru_time_cache::LruCache::with_capacity(capacity)
}

/// Relies on lru_time_cache::LruCache::get: with no time-to-live it returns
/// the value stored under the key, if any, and only refreshes recency, so
/// the key-to-value map is unchanged.
#[verifier::external_body]
fn lru_get(c: &mut SolutionStore, key: &Vec<u8>) -> (r: Option<Vec<u8>>)
    ensures
        lru_bound(*final(c)) == lru_bound(*old(c)),
        lru_bound(*old(c)) is Some ==> {
            &&& lru_contents(*final(c)) == lru_contents(*old(c))
            &&& (r is Some <==> lru_contents(*old(c)).dom().contains(key@))
            &&& (r matches Some(v) ==> v@ == lru_contents(*old(c))[key@])
        },
{
    c.get(key).cloned()
}

/// Relies on lru_time_cache::LruCache::insert: the key now maps to the
/// value; everything else either keeps its old value or was evicted, so
/// the new map is a submap of the old plus the new pair. With capacity
/// zero the crate's eviction panics, hence the capacity bound of one.
#[verifier::external_body]
fn lru_insert(c: &mut SolutionStore, key: &Vec<u8>, value: &Vec<u8>)
    requires
        lru_bound(*old(c)) matches Some(b) && b >= 1,
    ensures
        lru_bound(*final(c)) == lru_bound(*old(c)),
        lru_contents(*final(c)).submap_of(lru_contents(*old(c)).insert(key@, value@)),
        lru_contents(*final(c)).dom().contains(key@),
        lru_contents(*final(c))[key@] == value@,
{
    let _ = c.insert(key.clone(), value.clone());
}

/// Relies on lru_time_cache::LruCache::len: with no time-to-live it counts
/// exactly the stored entries.
#[verifier::external_body]
fn lru_len(c: &SolutionStore) -> (r: usize)
    ensures
        lru_bound(*c) is Some ==> r == lru_contents(*c).dom().len(),
{
    c.len()
}

/// A miss counter one higher, held at the top of its range.
pub open spec fn sat_inc(m: u64) -> u64 {
    if m < u64::MAX {
        (m + 1) as u64
    } else {
        m
    }
}

/// One backing cache device: a least-recently-used store of solution
/// encodings keyed by (position, depth) encodings, together with its
/// capacity and the number of lookups it has missed.
pub struct Device {
    cache: SolutionStore,
    capacity: usize,
    misses: u64,
}

impl Device {
    /// The key-to-value map the device holds.
    pub closed spec fn entries(self) -> Map<Seq<u8>, Seq<u8>> {
        lru_contents(self.cache)
    }

    /// The capacity the device was built with.
    pub closed spec fn spec_capacity(self) -> usize {
        self.capacity
    }

    /// How many lookups this device has missed.
    pub closed spec fn spec_misses(self) -> u64 {
        self.misses
    }

    /// Well-formedness: the backing cache was built with this device's
    /// capacity (at least one), and every entry is the encoded exact
    /// solution of the query its key encodes.
    pub closed spec fn inv(self) -> bool {
        &&& lru_bound(self.cache) == Some(self.capacity)
        &&& self.capacity >= 1
        &&& forall|g: Game, d: Count|
            self.entries().dom().contains(#[trigger] spec_key(g, d)) ==> self.entries()[spec_key(
                g,
                d,
            )] == spec_sol_bytes(spec_solve(g, d))
    }

    /// Returns how many entries the device holds.
    pub fn cache_len(&self) -> (r: usize)
        requires
            self.inv(),
        ensures
            r == self.entries().dom().len(),
    {
        lru_len(&self.cache)
    }

    /// Returns how many lookups this device has missed.
    pub fn miss_count(&self) -> (r: u64)
        ensures
            r == self.spec_misses(),
    {
        self.misses
    }

    /// Returns the device's capacity.
    pub fn capacity(&self) -> (r: usize)
        ensures
            r == self.spec_capacity(),
    {
        self.capacity
    }

    /// Looks a key up, counting a miss. The stored map never changes.
    fn lookup(&mut self, key: &Vec<u8>) -> (r: Option<Vec<u8>>)
        requires
            old(self).inv(),
        ensures
            final(self).inv(),
            final(self).entries() == old(self).entries(),
            final(self).spec_capacity() == old(self).spec_capacity(),
            r is Some <==> old(self).entries().dom().contains(key@),
            r matches Some(v) ==> v@ == old(self).entries()[key@],
            final(self).spec_misses() == if old(self).entries().dom().contains(key@) {
                old(self).spec_misses()
            } else {
                sat_inc(old(self).spec_misses())
            },
    {
        let r = lru_get(&mut self.cache, key);
        if r.is_none() {
            if self.misses < u64::MAX {
                self.misses = self.misses + 1;
            }
        }
        r
    }

    /// Stores a value under a key. The caller warrants that the value is
    /// the encoded exact solution of whatever query the key encodes.
    fn store(&mut self, key: &Vec<u8>, value: &Vec<u8>)
        requires
            old(self).inv(),
            forall|g: Game, d: Count|
                key@ == spec_key(g, d) ==> value@ == spec_sol_bytes(spec_solve(g, d)),
        ensures
            final(self).inv(),
            final(self).spec_capacity() == old(self).spec_capacity(),
            final(self).spec_misses() == old(self).spec_misses(),
            final(self).entries().submap_of(old(self).entries().insert(key@, value@)),
            final(self).entries().dom().contains(key@),
    {
        lru_insert(&mut self.cache, key, value);
        proof {
            let m1 = lru_contents(self.cache);
            let m0 = lru_contents(old(self).cache);
            assert forall|g: Game, d: Count|
                self.entries().dom().contains(#[trigger] spec_key(g, d)) implies self.entries()
                .index(spec_key(g, d)) == spec_sol_bytes(spec_solve(g, d)) by {
                let k = spec_key(g, d);
                assert(m1.dom().contains(k));
                assert(m0.insert(key@, value@).dom().contains(k) && m1[k] == m0.insert(
                    key@,
                    value@,
                )[k]);
                if k == key@ {
                } else {
                    assert(m0.dom().contains(k));
                    assert(old(self).entries().dom().contains(k));
                }
            }
        }
    }
}

/// Returns a fresh least-recently-used cache device with the given
/// capacity. The backing store evicts as soon as it is asked to hold more
/// than this many entries; a capacity of at least one keeps every freshly
/// written entry until a later write displaces it.
pub fn outcome_cache(capacity: usize) -> (d: Device)
    requires
        capacity >= 1,
    ensures
        d.inv(),
        d.entries() == empty_store(),
        d.spec_capacity() == capacity,
        d.spec_misses() == 0,
{
    Device { cache: lru_new(capacity), capacity, misses: 0 }
}

/// The ordered stack of cache devices: the first device is the fastest and
/// is checked first. One operation serves every query: look the (position,
/// depth) key up tier by tier; on a hit, decode the stored solution and
/// write it through to every faster tier that was checked and missed; on a
/// full miss, solve exactly and write the result into every tier checked.
/// An eviction is never refilled here; the entry is simply recomputed on
/// the next full miss.
pub struct Stack {
    devices: Vec<Device>,
}

impl Stack {
    /// How many devices the stack owns.
    pub closed spec fn device_count(self) -> int {
        self.devices@.len() as int
    }

    /// The i-th device, fastest first.
    pub closed spec fn device_at(self, i: int) -> Device {
        self.devices@[i]
    }

    /// Well-formedness: at least one device, and every device well-formed,
    /// so every cached entry is the encoded exact solution of its key.
    pub closed spec fn inv(self) -> bool {
        &&& self.devices@.len() >= 1
        &&& forall|i: int| 0 <= i < self.devices@.len() ==> (#[trigger] self.devices@[i]).inv()
    }

    /// Returns a stack with one fresh device per given capacity, fastest
    /// first. Capacities must be at least one, or the backing stores could
    /// not retain a freshly written entry.
    pub fn with_capacities(caps: &Vec<usize>) -> (s: Stack)
        requires
            caps@.len() >= 1,
            forall|i: int| 0 <= i < caps@.len() ==> #[trigger] caps@[i] >= 1,
        ensures
            s.inv(),
            s.device_count() == caps@.len(),
            forall|i: int|
                0 <= i < caps@.len() ==> {
                    &&& (#[trigger] s.device_at(i)).entries() == empty_store()
                    &&& s.device_at(i).spec_misses() == 0
                    &&& s.device_at(i).spec_capacity() == caps@[i]
                },
    {
        let mut devices: Vec<Device> = Vec::new();
        let mut i: usize = 0;
        while i < caps.len()
            invariant
                i <= caps@.len(),
                devices@.len() == i,
                forall|j: int| 0 <= j < caps@.len() ==> #[trigger] caps@[j] >= 1,
                forall|j: int|
                    0 <= j < i ==> {
                        &&& (#[trigger] devices@[j]).inv()
                        &&& devices@[j].entries() == empty_store()
                        &&& devices@[j].spec_misses() == 0
                        &&& devices@[j].spec_capacity() == caps@[j]
                    },
            decreases caps@.len() - i,
        {
            devices.push(outcome_cache(caps[i]));
            i = i + 1;
        }
        Stack { devices }
    }

    /// Returns the reference two-tier stack: a small fast device in front
    /// of a roomier one.
    pub fn new() -> (s: Stack)
        ensures
            s.inv(),
            s.device_count() == 2,
            forall|i: int|
                0 <= i < 2 ==> (#[trigger] s.device_at(i)).entries() == empty_store()
                    && s.device_at(i).spec_misses() == 0,
    {
        let mut devices: Vec<Device> = Vec::new();
        devices.push(outcome_cache(1024));
        devices.push(outcome_cache(65536));
        Stack { devices }
    }

    /// Returns how many devices the stack owns.
    pub fn len(&self) -> (r: usize)
        ensures
            r == self.device_count(),
    {
        self.devices.len()
    }

    /// Returns how many entries the i-th device holds.
    pub fn cache_len(&self, i: usize) -> (r: usize)
        requires
            self.inv(),
            i < self.device_count(),
        ensures
            r == self.device_at(i as int).entries().dom().len(),
    {
        self.devices[i].cache_len()
    }

    /// Returns how many lookups the i-th device has missed.
    pub fn miss_count(&self, i: usize) -> (r: u64)
        requires
            i < self.device_count(),
        ensures
            r == self.device_at(i as int).spec_misses(),
    {
        self.devices[i].miss_count()
    }

    /// Stores the value under the key in every device before `upto`. The
    /// caller warrants that the value is the encoded exact solution of
    /// whatever query the key encodes.
    fn write_through(&mut self, upto: usize, key: &Vec<u8>, value: &Vec<u8>)
        requires
            old(self).inv(),
            upto <= old(self).devices@.len(),
            forall|g: Game, d: Count|
                key@ == spec_key(g, d) ==> value@ == spec_sol_bytes(spec_solve(g, d)),
        ensures
            final(self).inv(),
            final(self).devices@.len() == old(self).devices@.len(),
            forall|j: int|
                0 <= j < upto ==> {
                    &&& (#[trigger] final(self).devices@[j]).entries().dom().contains(key@)
                    &&& final(self).devices@[j].spec_misses() == old(self).devices@[j].spec_misses()
                },
            forall|j: int|
                upto <= j < old(self).devices@.len() ==> #[trigger] final(self).devices@[j] == old(
                    self,
                ).devices@[j],
    {
        let mut j: usize = 0;
        while j < upto
            invariant
                upto <= self.devices@.len(),
                self.devices@.len() == old(self).devices@.len(),
                j <= upto,
                self.inv(),
                forall|g: Game, d: Count|
                    key@ == spec_key(g, d) ==> value@ == spec_sol_bytes(spec_solve(g, d)),
                forall|k: int|
                    0 <= k < j ==> {
                        &&& (#[trigger] self.devices@[k]).entries().dom().contains(key@)
                        &&& self.devices@[k].spec_misses() == old(self).devices@[k].spec_misses()
                    },
                forall|k: int|
                    j <= k < self.devices@.len() ==> #[trigger] self.devices@[k] == old(
                        self,
                    ).devices@[k],
            decreases upto - j,
        {
            let ghost prev = self.devices@;
            let mut dev = self.devices.remove(j);
            dev.store(key, value);
            self.devices.insert(j, dev);
            proof {
                assert(self.devices@ =~= prev.update(j as int, dev));
            }
            j = j + 1;
        }
    }

    /// Serves a (position, depth) query through the cache: checks the
    /// devices in order; a hit returns the cached solution; a full miss
    /// solves the position exactly at the requested depth. Either way the
    /// result equals `spec_solve` — the cache never alters results — and
    /// afterwards the fastest tier holds the entry. A query whose entry
    /// already sits in the fastest tier changes no device's stored map and
    /// no device's miss count, and the same solution comes back.
    pub fn get_and_put(&mut self, game: &Game, depth: Count) -> (s: Solution)
        requires
            old(self).inv(),
        ensures
            final(self).inv(),
            s == spec_solve(*game, depth),
            final(self).device_count() == old(self).device_count(),
            final(self).device_at(0).entries().dom().contains(spec_key(*game, depth)),
            forall|j: int|
                0 <= j < final(self).device_count() ==> (#[trigger] final(self).device_at(
                    j,
                )).entries().dom().contains(spec_key(*game, depth)) || final(self).device_at(j)
                    == old(self).device_at(j),
            old(self).device_at(0).entries().dom().contains(spec_key(*game, depth)) ==> forall|
                j: int,
            |
                0 <= j < final(self).device_count() ==> (#[trigger] final(self).device_at(
                    j,
                )).entries() == old(self).device_at(j).entries() && final(self).device_at(
                    j,
                ).spec_misses() == old(self).device_at(j).spec_misses(),
    {
        let key = encode_key(game, depth);
        let n = self.devices.len();
        let mut i: usize = 0;
        let mut hit: Option<Vec<u8>> = None;
        let mut hit_idx: usize = 0;
        while i < n && hit.is_none()
            invariant
                self.inv(),
                n == self.devices@.len(),
                n == old(self).devices@.len(),
                i <= n,
                key@ == spec_key(*game, depth),
                hit is None ==> forall|j: int|
                    i <= j < n ==> #[trigger] self.devices@[j] == old(self).devices@[j],
                forall|j: int|
                    0 <= j < i ==> (#[trigger] self.devices@[j]).entries() == old(
                        self,
                    ).devices@[j].entries() && self.devices@[j].spec_capacity() == old(
                        self,
                    ).devices@[j].spec_capacity(),
                hit is None ==> forall|j: int|
                    0 <= j < i ==> !(#[trigger] self.devices@[j]).entries().dom().contains(key@),
                hit matches Some(v) ==> {
                    &&& hit_idx == i
                    &&& i < n
                    &&& v@ == spec_sol_bytes(spec_solve(*game, depth))
                    &&& self.devices@[i as int].entries().dom().contains(key@)
                    &&& self.devices@[i as int].entries() == old(self).devices@[i as int].entries()
                    &&& self.devices@[i as int].spec_misses() == old(
                        self,
                    ).devices@[i as int].spec_misses()
                    &&& forall|j: int|
                        i < j < n ==> #[trigger] self.devices@[j] == old(self).devices@[j]
                    &&& forall|j: int|
                        0 <= j < i ==> !(#[trigger] self.devices@[j]).entries().dom().contains(
                            key@,
                        )
                },
            decreases n - i, (if hit is None { 1int } else { 0int }),
        {
            let ghost prev = self.devices@;
            let mut dev = self.devices.remove(i);
            let r = dev.lookup(&key);
            self.devices.insert(i, dev);
            proof {
                assert(self.devices@ =~= prev.update(i as int, dev));
            }
            match r {
                Some(v) => {
                    proof {
                        let gd = old(self).devices@[i as int];
                        assert(gd.entries().dom().contains(spec_key(*game, depth)));
                        assert(gd.entries()[spec_key(*game, depth)] == spec_sol_bytes(
                            spec_solve(*game, depth),
                        ));
                    }
                    hit = Some(v);
                    hit_idx = i;
                },
                None => {
                    i = i + 1;
                },
            }
        }
        match hit {
            Some(v) => {
                proof {
                    assert forall|g: Game, d: Count| key@ == spec_key(g, d) implies v@
                        == spec_sol_bytes(spec_solve(g, d)) by {
                        lemma_key_injective(*game, depth, g, d);
                    }
                }
                let ghost mid = *self;
                proof {
                    if old(self).devices@[0].entries().dom().contains(key@) {
                        if hit_idx != 0 {
                            assert(self.devices@[0].entries() == old(self).devices@[0].entries());
                            assert(!self.devices@[0].entries().dom().contains(key@));
                            assert(false);
                        }
                    }
                }
                self.write_through(hit_idx, &key, &v);
                proof {
                    if old(self).devices@[0].entries().dom().contains(key@) {
                        assert forall|j: int| 0 <= j < n implies (#[trigger] self.device_at(j))
                            .entries() == old(self).device_at(j).entries() && self.device_at(j)
                            .spec_misses() == old(self).device_at(j).spec_misses() by {
                            assert(self.devices@[j] == mid.devices@[j]);
                            if j > 0 {
                                assert(mid.devices@[j] == old(self).devices@[j]);
                            } else {
                                assert(mid.devices@[0].entries() == old(
                                    self,
                                ).devices@[0].entries());
                                assert(mid.devices@[0].spec_misses() == old(
                                    self,
                                ).devices@[0].spec_misses());
                            }
                        }
                    }
                }
                let sol = decode_solution(&v);
                proof {
                    assert(v@ == spec_sol_bytes(spec_solve(*game, depth)));
                    assert(sol == Some(spec_solve(*game, depth)));
                }
                sol.unwrap()
            },
            None => {
                let sol = (*game).solve_for(depth);
                let bytes = encode_solution(&sol);
                proof {
                    assert forall|g: Game, d: Count| key@ == spec_key(g, d) implies bytes@
                        == spec_sol_bytes(spec_solve(g, d)) by {
                        lemma_key_injective(*game, depth, g, d);
                    }
                    assert(self.devices@[0].entries() == old(self).devices@[0].entries());
                    assert(!self.devices@[0].entries().dom().contains(key@));
                    assert(!old(self).device_at(0).entries().dom().contains(
                        spec_key(*game, depth),
                    ));
                }
                self.write_through(n, &key, &bytes);
                sol
            },
        }
    }
}

} // verus!
