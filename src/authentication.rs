use std::collections::HashMap;
use std::collections::HashSet;
use vstd::prelude::*;

use crate::code::GameCode;
use crate::fresh::lemma_small_value_free;
use crate::manager::GameManager;
use crate::rng::random_uuid_value;

verus! {

use vstd::std_specs::iter::IteratorSpec;

broadcast use vstd::std_specs::hash::group_hash_axioms;

/// How many random values are drawn before a free one is searched for in
/// order.
pub const RANDOM_ATTEMPTS: u32 = 64;

/// The least value that `used` does not hold.
pub fn first_free_value(used: &HashSet<u128>) -> (r: u128)
    requires
        used@.finite(),
    ensures
        !used@.contains(r),
        forall|y: u128| y < r ==> used@.contains(y),
{
    let n = used.len();
    proof {
        lemma_small_value_free(used@, n as u128);
    }
    let mut x: u128 = 0;
    while used.contains(&x)
        invariant
            x <= n,
            forall|y: u128| y < x ==> used@.contains(y),
            exists|z: u128| z <= n && !used@.contains(z),
        decreases n - x,
    {
        x += 1;
    }
    x
}

/// Recovery id that a user presents to get their registration back after the
/// connection was lost.
#[derive(Clone, Copy, Debug, PartialEq, Eq, Hash, Structural)]
pub struct Urid {
    uuid: u128,
}

impl Urid {
    /// The 128-bit value of this recovery id.
    pub closed spec fn spec_value(&self) -> u128 {
        self.uuid
    }

    /// Creates a random recovery id.
    pub fn new() -> (r: Self) {
        Urid { uuid: random_uuid_value() }
    }

    /// Wraps a known 128-bit value.
    pub fn from_uuid(uuid: u128) -> (r: Self)
        ensures
            r.spec_value() == uuid,
    {
        Urid { uuid }
    }

    /// Returns the value of this recovery id.
    pub fn value(&self) -> (r: u128)
        ensures
            r == self.spec_value(),
    {
        self.uuid
    }
}

/// What a user presents to get their registration back: their recovery id
/// and, where known, their name and origin.
#[derive(Clone)]
pub struct UserRecovery {
    pub urid: Urid,
    pub name: Option<String>,
    pub ip_addr: Option<u128>,
}

impl UserRecovery {
    /// A recovery attempt with `urid` from `ip_addr`, with no name yet.
    pub fn new(urid: Urid, ip_addr: Option<u128>) -> (r: Self)
        ensures
            r.urid == urid,
            r.name is None,
            r.ip_addr == ip_addr,
    {
        UserRecovery { urid, name: None, ip_addr }
    }
}

/// An authenticated user: the user with id `uuid` plays in the game with
/// the code `game_code`.
#[derive(Clone, Copy)]
pub struct UserAuth {
    pub uuid: u128,
    pub game_code: GameCode,
}

impl UserAuth {
    /// The authentication of the user with id `user_id`, if that user plays
    /// in a game.
    pub fn from_uuid(game_manager: &GameManager, user_id: u128) -> (r: Option<Self>)
        requires
            game_manager.wf(),
        ensures
            r is Some == game_manager.uuids().contains_key(user_id),
            r matches Some(a) ==> a.uuid == user_id && a.game_code == game_manager.uuids()[user_id],
    {
        match game_manager.game_by_uuid(user_id) {
            Some(game) => Some(UserAuth { uuid: user_id, game_code: *game.game_code() }),
            None => None,
        }
    }
}

/// Errors of authenticating a request.
#[derive(Debug)]
pub enum FromRequestError {
    /// Something the request needs is missing; the text says what.
    Missing(String),
    /// What the request holds is not valid; the text says why.
    Invalid(String),
}

/// Errors of a request that names a game by its code.
#[derive(Clone, Copy, Debug, PartialEq, Eq, Structural)]
pub enum GameCodeError {
    /// The code is missing.
    Missing,
    /// The code is not a valid game code.
    ParseError,
    /// No game has the code.
    NotFound,
}

/// `post` is `pre` after `register(ip_addr)` handed out `r`: a recovery id
/// not in use before, now in use, and linked to the origin where the origin
/// had none yet (the first claim of an origin is never overwritten).
pub open spec fn registered(pre: Urids, post: Urids, ip_addr: Option<u128>, r: Urid) -> bool {
    &&& !pre.used().contains(r.spec_value())
    &&& post.used() == pre.used().insert(r.spec_value())
    &&& post.by_ip() == (match ip_addr {
        Some(ip) => if pre.by_ip().contains_key(ip) {
            pre.by_ip()
        } else {
            pre.by_ip().insert(ip, r)
        },
        None => pre.by_ip(),
    })
}

/// `post` is `pre` with the recovery ids `urids` released: none of them is in
/// use, and the origins linked to one of them are unlinked.
pub open spec fn unregistered(pre: Urids, post: Urids, urids: Seq<Urid>) -> bool {
    &&& post.used() == pre.used().difference(
        Set::new(|v: u128| exists|i: int| 0 <= i < urids.len() && #[trigger] urids[i].spec_value() == v),
    )
    &&& post.by_ip() == pre.by_ip().restrict(
        pre.by_ip().dom().filter(|ip: u128| !urids.contains(pre.by_ip()[ip])),
    )
}

/// Stores all recovery ids in use, and the first recovery id claimed from
/// each origin.
pub struct Urids {
    used_urids: HashSet<u128>,
    urid_by_ip: HashMap<u128, Urid>,
}

impl Urids {
    /// Values of the recovery ids in use.
    pub closed spec fn used(&self) -> Set<u128> {
        self.used_urids@
    }

    /// The recovery id first claimed from each origin.
    pub closed spec fn by_ip(&self) -> Map<u128, Urid> {
        self.urid_by_ip@
    }

    /// The set of values in use is finite.
    pub closed spec fn wf(&self) -> bool {
        self.used_urids@.finite()
    }

    /// An empty store.
    pub fn new() -> (r: Self)
        ensures
            r.wf(),
            r.used() == Set::<u128>::empty(),
            r.by_ip() == Map::<u128, Urid>::empty(),
    {
        Urids { used_urids: HashSet::new(), urid_by_ip: HashMap::new() }
    }

    /// Marks `urid` as used and, where the origin has no recovery id yet,
    /// links it to the origin. Returns whether `urid` was not in use before.
    pub fn add_urid(&mut self, urid: Urid, ip_addr: Option<u128>) -> (r: bool)
        requires
            old(self).wf(),
        ensures
            final(self).wf(),
            r == !old(self).used().contains(urid.spec_value()),
            final(self).used() == old(self).used().insert(urid.spec_value()),
            final(self).by_ip() == (match ip_addr {
                Some(ip) => if old(self).by_ip().contains_key(ip) {
                    old(self).by_ip()
                } else {
                    old(self).by_ip().insert(ip, urid)
                },
                None => old(self).by_ip(),
            }),
    {
        if let Some(ip) = ip_addr {
            if !self.urid_by_ip.contains_key(&ip) {
                self.urid_by_ip.insert(ip, urid);
            }
        }
        self.used_urids.insert(urid.value())
    }

    /// Generates a recovery id that is not in use. It is not registered.
    pub fn generate_urid(&self) -> (r: Urid)
        requires
            self.wf(),
        ensures
            !self.used().contains(r.spec_value()),
    {
        let mut attempts: u32 = 0;
        while attempts < RANDOM_ATTEMPTS
            invariant
                attempts <= RANDOM_ATTEMPTS,
            decreases RANDOM_ATTEMPTS - attempts,
        {
            let urid = Urid::new();
            if !self.used_urids.contains(&urid.value()) {
                return urid;
            }
            attempts += 1;
        }
        Urid::from_uuid(first_free_value(&self.used_urids))
    }

    /// Registers a new recovery id, not in use before, and links it to the
    /// origin where the origin has none yet.
    pub fn register(&mut self, ip_addr: Option<u128>) -> (r: Urid)
        requires
            old(self).wf(),
        ensures
            final(self).wf(),
            registered(*old(self), *final(self), ip_addr, r),
    {
        let urid = self.generate_urid();
        self.add_urid(urid, ip_addr);
        urid
    }

    /// Releases `urid`: it is no longer in use, and no origin stays linked
    /// to it.
    pub fn unregister(&mut self, urid: Urid)
        requires
            old(self).wf(),
        ensures
            final(self).wf(),
            unregistered(*old(self), *final(self), seq![urid]),
    {
        let v = vec![urid];
        self.unregister_all(&v);
        assert(v@ =~= seq![urid]);
    }

    /// Releases the recovery ids in `urids`: they are no longer in use, and no
    /// origin stays linked to one of them.
    pub fn unregister_all(&mut self, urids: &Vec<Urid>)
        requires
            old(self).wf(),
        ensures
            final(self).wf(),
            unregistered(*old(self), *final(self), urids@),
    {
        let ghost released = Set::new(|v: u128| exists|i: int| 0 <= i < urids.len() && #[trigger] urids@[i].spec_value() == v);
        let mut i: usize = 0;
        while i < urids.len()
            invariant
                0 <= i <= urids.len(),
                self.urid_by_ip@ == old(self).urid_by_ip@,
                self.used_urids@ == old(self).used_urids@.difference(
                    Set::new(|v: u128| exists|j: int| 0 <= j < i && #[trigger] urids@[j].spec_value() == v),
                ),
            decreases urids.len() - i,
        {
            self.used_urids.remove(&urids[i].value());
            i += 1;
            assert(self.used_urids@ =~= old(self).used_urids@.difference(
                Set::new(|v: u128| exists|j: int| 0 <= j < i && #[trigger] urids@[j].spec_value() == v),
            ));
        }
        assert(self.used_urids@ =~= old(self).used_urids@.difference(released));
        let ghost m0 = self.urid_by_ip@;
        let ghost pairs = vstd::std_specs::hash::spec_hash_map_iter(&self.urid_by_ip).remaining();
        let mut ips_to_remove: Vec<u128> = Vec::new();
        for (k, v) in it: self.urid_by_ip.iter()
            invariant
                forall|j: int| 0 <= j < ips_to_remove.len() ==> {
                    &&& #[trigger] self.urid_by_ip@.contains_key(ips_to_remove@[j])
                    &&& urids@.contains(self.urid_by_ip@[ips_to_remove@[j]])
                },
                it.seq() == pairs,
                forall|j: int| 0 <= j < it.index() && urids@.contains(*pairs[j].1) ==>
                    ips_to_remove@.contains(*#[trigger] pairs[j].0),
        {
            assert(pairs[it.index() as int] == (k, v));
            assert(self.urid_by_ip@.contains_key(*k) && self.urid_by_ip@[*k] == *v);
            let ghost before = ips_to_remove@;
            if vec_contains_urid(urids, v) {
                ips_to_remove.push(*k);
                assert(ips_to_remove@[before.len() as int] == *k);
                assert forall|x: u128| before.contains(x) implies ips_to_remove@.contains(x) by {
                    let w = choose|w: int| 0 <= w < before.len() && before[w] == x;
                    assert(ips_to_remove@[w] == x);
                }
            }
        }
        assert forall|ip: u128| m0.contains_key(ip) && urids@.contains(m0[ip]) implies
            ips_to_remove@.contains(ip) by {
            assert(pairs.contains((&ip, &m0[ip])));
            let idx = choose|idx: int| 0 <= idx < pairs.len() && pairs[idx] == (&ip, &m0[ip]);
            assert(*pairs[idx].0 == ip);
        }
        let ghost kept = m0.dom().filter(|ip: u128| !urids@.contains(m0[ip]));
        let mut j: usize = 0;
        while j < ips_to_remove.len()
            invariant
                0 <= j <= ips_to_remove.len(),
                self.used_urids@ == old(self).used_urids@.difference(released),
                forall|x: int| 0 <= x < ips_to_remove.len() ==> {
                    &&& #[trigger] m0.contains_key(ips_to_remove@[x])
                    &&& urids@.contains(m0[ips_to_remove@[x]])
                },
                forall|ip: u128| m0.contains_key(ip) && urids@.contains(m0[ip]) ==>
                    ips_to_remove@.contains(ip),
                forall|ip: u128| #[trigger] self.urid_by_ip@.contains_key(ip) <==> (m0.contains_key(ip)
                    && !ips_to_remove@.subrange(0, j as int).contains(ip)),
                forall|ip: u128| #[trigger] self.urid_by_ip@.contains_key(ip) ==> self.urid_by_ip@[ip] == m0[ip],
            decreases ips_to_remove.len() - j,
        {
            self.urid_by_ip.remove(&ips_to_remove[j]);
            j += 1;
            let ghost now = ips_to_remove@.subrange(0, j as int);
            let ghost prev = ips_to_remove@.subrange(0, j - 1 as int);
            assert forall|ip: u128| now.contains(ip) <==> (prev.contains(ip) || ip == ips_to_remove@[j - 1]) by {
                if now.contains(ip) {
                    let w = choose|w: int| 0 <= w < now.len() && now[w] == ip;
                    if w < j - 1 {
                        assert(prev[w] == ip);
                    }
                }
                if prev.contains(ip) {
                    let w = choose|w: int| 0 <= w < prev.len() && prev[w] == ip;
                    assert(now[w] == ip);
                }
                if ip == ips_to_remove@[j - 1] {
                    assert(now[j - 1] == ip);
                }
            }
        }
        assert(ips_to_remove@.subrange(0, j as int) =~= ips_to_remove@);
        assert(self.urid_by_ip@ =~= m0.restrict(kept));
    }
}

/// Whether `v` holds `u`.
fn vec_contains_urid(v: &Vec<Urid>, u: &Urid) -> (r: bool)
    ensures
        r == v@.contains(*u),
{
    let mut i: usize = 0;
    while i < v.len()
        invariant
            0 <= i <= v.len(),
            forall|j: int| 0 <= j < i ==> v@[j] != *u,
        decreases v.len() - i,
    {
        if v[i] == *u {
            return true;
        }
        i += 1;
    }
    false
}

} // verus!
