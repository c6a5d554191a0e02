//! The model cache and the load-orchestration decisions.
//!
//! A batch of placements names models; each distinct name must be decoded at
//! most once even when many workers request it concurrently.  The cache is a
//! per-key state machine `Absent -> Loading -> Ready`: the first requester
//! starts the decode, later requesters wait for its completion signal.  The
//! embedding application supplies the mutual exclusion around the map and
//! the completion signal itself; every transition decision is made here.

use vstd::prelude::*;

use crate::ibsp::IbspVersion;
use crate::material::Material;
use crate::xmodel::{GameVersion, XModel};
use crate::xmodelpart::XModelPart;
use crate::xmodelsurf::XModelSurf;

verus! {

/// One fully decoded model: the descriptor, the skeleton when it loaded
/// (a failed skeleton degrades to `None` and the mesh stays un-baked), the
/// mesh, and the materials of the chosen level of detail.
pub struct LoadedModel {
    pub model: XModel,
    pub skeleton: Option<XModelPart>,
    pub mesh: XModelSurf,
    pub materials: Vec<Material>,
}

/// The per-key cache states.
pub enum CachedModel {
    Loading,
    Cached(LoadedModel),
}

/// What a requester must do next.
#[derive(Clone, Copy, Debug, PartialEq, Eq, Structural)]
pub enum RequestAction {
    /// The name was absent: this requester decodes it.
    StartLoad,
    /// Another requester is decoding it: wait for the completion signal.
    Wait,
    /// The decode is finished: read the cached value.
    UseCached,
}

/// The abstract per-key state.
#[derive(Clone, Copy, Debug, PartialEq, Eq, Structural)]
pub enum CacheState {
    Absent,
    Loading,
    Ready,
}

/// The cache: one state per model name, each distinct name held once.
pub struct ModelCache {
    entries: Vec<(String, CachedModel)>,
}

/// The abstract state a concrete entry denotes.
pub open spec fn state_of(c: CachedModel) -> CacheState {
    match c {
        CachedModel::Loading => CacheState::Loading,
        CachedModel::Cached(_) => CacheState::Ready,
    }
}

/// One request transition on the abstract cache map: what the state becomes
/// and what the requester is told to do.
pub open spec fn req_step(
    pre: Map<Seq<char>, CacheState>,
    name: Seq<char>,
    post: Map<Seq<char>, CacheState>,
    r: RequestAction,
) -> bool {
    if !pre.contains_key(name) {
        r == RequestAction::StartLoad && post == pre.insert(name, CacheState::Loading)
    } else if pre[name] == CacheState::Loading {
        r == RequestAction::Wait && post == pre
    } else {
        r == RequestAction::UseCached && post == pre
    }
}

/// Duplicate requests deduplicate: of two consecutive requests for one
/// name, at most the first starts a decode; every later requester waits or
/// reads the cache, so each distinct name is decoded at most once.
pub proof fn lemma_requests_deduplicate(
    m0: Map<Seq<char>, CacheState>,
    m1: Map<Seq<char>, CacheState>,
    m2: Map<Seq<char>, CacheState>,
    r1: RequestAction,
    r2: RequestAction,
    name: Seq<char>,
)
    requires
        req_step(m0, name, m1, r1),
        req_step(m1, name, m2, r2),
    ensures
        !(r1 == RequestAction::StartLoad && r2 == RequestAction::StartLoad),
        r1 == RequestAction::StartLoad ==> r2 == RequestAction::Wait || r2
            == RequestAction::UseCached,
{
}

/// A decode that finishes keeps every other name's state: completion never
/// restarts or disturbs other in-flight loads.
pub proof fn lemma_ready_preserves_others(
    pre: Map<Seq<char>, CacheState>,
    name: Seq<char>,
    other: Seq<char>,
)
    requires
        name != other,
    ensures
        pre.insert(name, CacheState::Ready).contains_key(other) == pre.contains_key(other),
        pre.contains_key(other) ==> pre.insert(name, CacheState::Ready)[other] == pre[other],
{
}

impl ModelCache {
    /// The abstract map this cache denotes.
    pub closed spec fn view_map(&self) -> Map<Seq<char>, CacheState> {
        Map::new(
            |k: Seq<char>| exists|i: int| 0 <= i < self.entries@.len() && self.entries@[i].0@ == k,
            |k: Seq<char>|
                state_of(
                    self.entries@[choose|i: int|
                        0 <= i < self.entries@.len() && self.entries@[i].0@ == k].1,
                ),
        )
    }

    /// Each name appears at most once.
    pub closed spec fn wf(&self) -> bool {
        forall|i: int, j: int|
            0 <= i < j < self.entries@.len() ==> (#[trigger] self.entries@[i]).0@ != (
            #[trigger] self.entries@[j]).0@
    }

    /// An empty cache.
    pub fn new() -> (r: ModelCache)
        ensures
            r.wf(),
            r.view_map() == Map::<Seq<char>, CacheState>::empty(),
    {
        let r = ModelCache { entries: Vec::new() };
        proof {
            assert(r.view_map() =~= Map::<Seq<char>, CacheState>::empty());
        }
        r
    }

    /// The slot holding `name`, if any.
    #[verifier::loop_isolation(false)]
    fn find(&self, name: &String) -> (r: Option<usize>)
        requires
            self.wf(),
        ensures
            r matches Some(i) ==> i < self.entries@.len() && self.entries@[i as int].0@ == name@,
            r is None ==> !self.view_map().contains_key(name@),
    {
        let mut i: usize = 0;
        while i < self.entries.len()
            invariant
                i <= self.entries@.len(),
                forall|j: int| 0 <= j < i ==> (#[trigger] self.entries@[j]).0@ != name@,
            decreases self.entries@.len() - i,
        {
            if self.entries[i].0.eq(name) {
                return Some(i);
            }
            i = i + 1;
        }
        proof {
            assert(!self.view_map().contains_key(name@));
        }
        None
    }

    /// The abstract state `name` is in.
    pub fn probe(&self, name: &String) -> (r: CacheState)
        requires
            self.wf(),
        ensures
            !self.view_map().contains_key(name@) ==> r == CacheState::Absent,
            self.view_map().contains_key(name@) ==> r == self.view_map()[name@],
    {
        match self.find(name) {
            None => CacheState::Absent,
            Some(i) => {
                proof {
                    let k = name@;
                    let w = choose|j: int|
                        0 <= j < self.entries@.len() && self.entries@[j].0@ == k;
                    assert(self.entries@[i as int].0@ == k);
                    assert(w == i as int);
                }
                match &self.entries[i].1 {
                    CachedModel::Loading => CacheState::Loading,
                    CachedModel::Cached(_) => CacheState::Ready,
                }
            },
        }
    }

    /// Stores `name` in the given state, replacing any earlier state.
    #[verifier::loop_isolation(false)]
    pub fn set_model(&mut self, name: &String, cached_model: CachedModel)
        requires
            old(self).wf(),
        ensures
            final(self).wf(),
            final(self).view_map() == old(self).view_map().insert(
                name@,
                state_of(cached_model),
            ),
    {
        let ghost st = state_of(cached_model);
        match self.find(name) {
            Some(i) => {
                self.entries[i] = (name.clone(), cached_model);
                proof {
                    assert forall|k: Seq<char>| true implies #[trigger] self.view_map().contains_key(
                        k,
                    ) == old(self).view_map().insert(name@, st).contains_key(k) by {
                        if k == name@ {
                            assert(self.entries@[i as int].0@ == k);
                        } else {
                            if exists|j: int|
                                0 <= j < self.entries@.len() && (#[trigger] self.entries@[j]).0@
                                    == k {
                                let j = choose|j: int|
                                    0 <= j < self.entries@.len() && self.entries@[j].0@ == k;
                                assert(old(self).entries@[j].0@ == k);
                            }
                            if exists|j: int|
                                0 <= j < old(self).entries@.len() && (#[trigger] old(
                                    self,
                                ).entries@[j]).0@ == k {
                                let j = choose|j: int|
                                    0 <= j < old(self).entries@.len() && old(
                                        self,
                                    ).entries@[j].0@ == k;
                                assert(self.entries@[j].0@ == k);
                            }
                        }
                    }
                    assert forall|k: Seq<char>| self.view_map().contains_key(k) implies
                        #[trigger] self.view_map()[k] == old(self).view_map().insert(name@, st)[k]
                        by {
                        let w = choose|j: int|
                            0 <= j < self.entries@.len() && self.entries@[j].0@ == k;
                        if k == name@ {
                            assert(self.entries@[i as int].0@ == k);
                            assert(w == i as int);
                        } else {
                            let w0 = choose|j: int|
                                0 <= j < old(self).entries@.len() && old(
                                    self,
                                ).entries@[j].0@ == k;
                            assert(old(self).entries@[w].0@ == k);
                            assert(w0 == w);
                        }
                    }
                    assert(self.view_map() =~= old(self).view_map().insert(name@, st));
                }
            },
            None => {
                let ghost pre = self.entries@;
                self.entries.push((name.clone(), cached_model));
                proof {
                    let n = pre.len() as int;
                    assert(self.entries@[n].0@ == name@);
                    assert forall|k: Seq<char>| true implies #[trigger] self.view_map().contains_key(
                        k,
                    ) == old(self).view_map().insert(name@, st).contains_key(k) by {
                        if k != name@ {
                            if exists|j: int|
                                0 <= j < self.entries@.len() && (#[trigger] self.entries@[j]).0@
                                    == k {
                                let j = choose|j: int|
                                    0 <= j < self.entries@.len() && self.entries@[j].0@ == k;
                                assert(j != n);
                                assert(old(self).entries@[j].0@ == k);
                            }
                            if exists|j: int|
                                0 <= j < old(self).entries@.len() && (#[trigger] old(
                                    self,
                                ).entries@[j]).0@ == k {
                                let j = choose|j: int|
                                    0 <= j < old(self).entries@.len() && old(
                                        self,
                                    ).entries@[j].0@ == k;
                                assert(self.entries@[j].0@ == k);
                            }
                        }
                    }
                    assert forall|k: Seq<char>| self.view_map().contains_key(k) implies
                        #[trigger] self.view_map()[k] == old(self).view_map().insert(name@, st)[k]
                        by {
                        let w = choose|j: int|
                            0 <= j < self.entries@.len() && self.entries@[j].0@ == k;
                        if k == name@ {
                            assert(w == n);
                        } else {
                            let w0 = choose|j: int| 0 <= j < pre.len() && pre[j].0@ == k;
                            assert(old(self).entries@[w].0@ == k);
                            assert(w0 == w);
                        }
                    }
                    assert(self.view_map() =~= old(self).view_map().insert(name@, st));
                }
            },
        }
    }

    /// The cached model under `name`, when its decode has finished.
    pub fn get_model(&self, name: &String) -> (r: Option<&LoadedModel>)
        requires
            self.wf(),
        ensures
            r is Some <==> (self.view_map().contains_key(name@) && self.view_map()[name@]
                == CacheState::Ready),
    {
        match self.find(name) {
            None => None,
            Some(i) => {
                proof {
                    let k = name@;
                    let w = choose|j: int|
                        0 <= j < self.entries@.len() && self.entries@[j].0@ == k;
                    assert(self.entries@[i as int].0@ == k);
                    assert(w == i as int);
                }
                match &self.entries[i].1 {
                    CachedModel::Loading => None,
                    CachedModel::Cached(m) => Some(m),
                }
            },
        }
    }

    /// One requester's transition: the first requester of an absent name is
    /// told to start the decode (and the name turns `Loading`); requesters
    /// of an in-flight name are told to wait; requesters of a finished name
    /// read the cache.  Together with `lemma_requests_deduplicate` this
    /// makes each distinct name decode at most once.
    pub fn request(&mut self, name: &String) -> (r: RequestAction)
        requires
            old(self).wf(),
        ensures
            final(self).wf(),
            req_step(old(self).view_map(), name@, final(self).view_map(), r),
    {
        match self.probe(name) {
            CacheState::Absent => {
                self.set_model(name, CachedModel::Loading);
                RequestAction::StartLoad
            },
            CacheState::Loading => {
                proof {
                    assert(final(self).view_map() =~= old(self).view_map());
                }
                RequestAction::Wait
            },
            CacheState::Ready => {
                proof {
                    assert(final(self).view_map() =~= old(self).view_map());
                }
                RequestAction::UseCached
            },
        }
    }
}

/// The model generation and material layout a map version selects for its
/// placements: the older map pairs with the oldest model generation, the
/// newer with the middle one (whose material records use the longer header
/// gap).
pub fn placement_pairing(v: IbspVersion) -> (r: (GameVersion, bool))
    ensures
        v == IbspVersion::V4 ==> r == (GameVersion::CoD2, true),
        v == IbspVersion::V59 ==> r == (GameVersion::CoD1, false),
{
    match v {
        IbspVersion::V4 => (GameVersion::CoD2, true),
        IbspVersion::V59 => (GameVersion::CoD1, false),
    }
}

} // verus!
