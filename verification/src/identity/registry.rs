//! Actor registry: one entry per actor id, the first registration kept.

use vstd::prelude::*;

use crate::platform::unix_time_seconds;
use crate::text::distinct_views;
use crate::text::keys_sorted;
use crate::text::sort_distinct_strings;
use crate::text::str_eq;
use crate::text::string_seq_views;

verus! {

/// A registered actor.
#[derive(Debug, Clone)]
pub struct ActorEntry {
    pub actor_id: String,
    pub role: String,
    pub registered_at: u64,
}

/// A registered actor as a mathematical value.
pub struct ActorRecord {
    pub actor_id: Seq<char>,
    pub role: Seq<char>,
    pub registered_at: u64,
}

impl View for ActorEntry {
    type V = ActorRecord;

    open spec fn view(&self) -> ActorRecord {
        ActorRecord { actor_id: self.actor_id@, role: self.role@, registered_at: self.registered_at }
    }
}

/// What `register` does: an actor already registered is left as it is;
/// otherwise its record, at some registration time, is appended.
pub open spec fn register_post(old: Registry, new: Registry, actor_id: Seq<char>, role: Seq<char>) -> bool {
    &&& new.wf()
    &&& old.ids().contains(actor_id) ==> new.records() == old.records()
    &&& !old.ids().contains(actor_id) ==> exists|t: u64|
        new.records() == old.records().push(ActorRecord { actor_id, role, registered_at: t })
}

/// Registered actors, in registration order.
pub struct Registry {
    actors: Vec<ActorEntry>,
}

impl Registry {
    /// The records, in registration order.
    pub closed spec fn records(&self) -> Seq<ActorRecord> {
        self.actors@.map_values(|e: ActorEntry| e@)
    }

    /// The actor ids, in registration order.
    pub open spec fn ids(&self) -> Seq<Seq<char>> {
        self.records().map_values(|r: ActorRecord| r.actor_id)
    }

    /// Every actor id is registered once.
    pub open spec fn wf(&self) -> bool {
        forall|i: int, j: int| 0 <= i < j < self.ids().len() ==> (#[trigger] self.ids()[i]) != (#[trigger] self.ids()[j])
    }

    /// The record of an actor id, if registered.
    pub open spec fn find(&self, id: Seq<char>) -> Option<ActorRecord> {
        if self.ids().contains(id) {
            Some(self.records()[self.ids().index_of(id)])
        } else {
            None
        }
    }

    /// An empty registry.
    pub fn new() -> (r: Self)
        ensures
            r.wf(),
            r.records().len() == 0,
    {
        Registry { actors: Vec::new() }
    }

    /// Position of the entry with `actor_id`, if any.
    fn position(&self, actor_id: &str) -> (r: Option<usize>)
        requires
            self.wf(),
        ensures
            match r {
                Some(i) => i < self.ids().len() && self.ids()[i as int] == actor_id@,
                None => !self.ids().contains(actor_id@),
            },
    {
        let n = self.actors.len();
        let mut i: usize = 0;
        while i < n
            invariant
                n == self.ids().len(),
                i <= n,
                forall|j: int| 0 <= j < i ==> self.ids()[j] != actor_id@,
            decreases n - i,
        {
            assert(self.ids()[i as int] == self.actors@[i as int].actor_id@);
            if str_eq(self.actors[i].actor_id.as_str(), actor_id) {
                return Some(i);
            }
            i += 1;
        }
        None
    }

    proof fn lemma_find_at(&self, i: int)
        requires
            self.wf(),
            0 <= i < self.ids().len(),
        ensures
            self.find(self.ids()[i]) == Some(self.records()[i]),
    {
        assert(self.ids().contains(self.ids()[i]));
        let j = self.ids().index_of(self.ids()[i]);
        if j != i {
            if j < i {
                assert(self.ids()[j] != self.ids()[i]);
            } else {
                assert(self.ids()[i] != self.ids()[j]);
            }
        }
    }

    /// Registers an actor at the current time (zero when the clock is
    /// unusable); an actor already registered is left as it is.
    pub fn register(&mut self, actor_id: String, role: String)
        requires
            old(self).wf(),
        ensures
            register_post(*old(self), *final(self), actor_id@, role@),
    {
        if self.position(actor_id.as_str()).is_some() {
            return;
        }
        let registered_at = match unix_time_seconds() {
            Some(t) => t,
            None => 0,
        };
        let ghost before = self.records();
        self.actors.push(ActorEntry { actor_id, role, registered_at });
        assert(self.records() =~= before.push(self.actors@.last()@));
        assert(self.ids() =~= old(self).ids().push(self.actors@.last().actor_id@));
    }

    /// The role of an actor, if registered.
    pub fn role(&self, actor_id: &str) -> (r: Option<&str>)
        requires
            self.wf(),
        ensures
            match r {
                Some(s) => self.find(actor_id@) is Some && s@ == self.find(actor_id@).unwrap().role,
                None => self.find(actor_id@) is None,
            },
    {
        match self.position(actor_id) {
            Some(i) => {
                proof {
                    self.lemma_find_at(i as int);
                }
                Some(self.actors[i].role.as_str())
            },
            None => None,
        }
    }

    /// The entry of an actor, if registered.
    pub fn get(&self, actor_id: &str) -> (r: Option<&ActorEntry>)
        requires
            self.wf(),
        ensures
            match r {
                Some(e) => self.find(actor_id@) == Some(e@),
                None => self.find(actor_id@) is None,
            },
    {
        match self.position(actor_id) {
            Some(i) => {
                proof {
                    self.lemma_find_at(i as int);
                }
                Some(&self.actors[i])
            },
            None => None,
        }
    }

    /// Whether an actor is registered.
    pub fn is_registered(&self, actor_id: &str) -> (r: bool)
        requires
            self.wf(),
        ensures
            r == self.ids().contains(actor_id@),
    {
        self.position(actor_id).is_some()
    }

    /// Number of registered actors.
    pub fn len(&self) -> (r: usize)
        ensures
            r == self.records().len(),
    {
        self.actors.len()
    }

    /// Whether no actor is registered.
    pub fn is_empty(&self) -> (r: bool)
        ensures
            r == (self.records().len() == 0),
    {
        self.actors.len() == 0
    }

    /// The registered actor ids in increasing order.
    pub fn export_actor_ids(&self) -> (r: Vec<String>)
        requires
            self.wf(),
        ensures
            r@.len() == self.ids().len(),
            keys_sorted(string_seq_views(r@)),
            string_seq_views(r@).to_set() == self.ids().to_set(),
    {
        let n = self.actors.len();
        let mut ids: Vec<String> = Vec::new();
        let mut i: usize = 0;
        while i < n
            invariant
                n == self.ids().len(),
                i <= n,
                ids@.len() == i,
                forall|k: int| 0 <= k < i ==> (#[trigger] ids@[k])@ == self.ids()[k],
            decreases n - i,
        {
            ids.push(self.actors[i].actor_id.clone());
            i += 1;
        }
        assert(string_seq_views(ids@) =~= self.ids());
        assert(distinct_views(ids@)) by {
            assert forall|a: int, b: int| 0 <= a < b < ids@.len() implies (#[trigger] ids@[a])@ != (
            #[trigger] ids@[b])@ by {
                assert(self.ids()[a] != self.ids()[b]);
            }
        }
        let r = sort_distinct_strings(ids.as_slice());
        proof {
            assert forall|x: Seq<char>| string_seq_views(r@).to_set().contains(x) <==> self.ids().to_set().contains(x) by {
                if string_seq_views(r@).contains(x) {
                    let k = choose|k: int| 0 <= k < r@.len() && string_seq_views(r@)[k] == x;
                    assert(r@.contains(r@[k]));
                    let j = choose|j: int| 0 <= j < ids@.len() && ids@[j] == r@[k];
                    assert(self.ids()[j] == x);
                }
                if self.ids().contains(x) {
                    let j = choose|j: int| 0 <= j < ids@.len() && self.ids()[j] == x;
                    assert(ids@.contains(ids@[j]));
                    let k = choose|k: int| 0 <= k < r@.len() && r@[k] == ids@[j];
                    assert(string_seq_views(r@)[k] == x);
                }
            }
            assert(string_seq_views(r@).to_set() =~= self.ids().to_set());
        }
        r
    }
}

impl Default for Registry {
    fn default() -> (r: Self)
        ensures
            r.wf(),
            r.records().len() == 0,
    {
        Registry::new()
    }
}

/// Registering an actor that is not yet registered makes it findable with
/// the given role; registering it again changes nothing.
pub proof fn law_register_then_find(old: Registry, new: Registry, actor_id: Seq<char>, role: Seq<char>)
    requires
        old.wf(),
        register_post(old, new, actor_id, role),
    ensures
        new.ids().contains(actor_id),
        old.ids().contains(actor_id) ==> new.find(actor_id) == old.find(actor_id),
        !old.ids().contains(actor_id) ==> (new.find(actor_id) matches Some(rec) && rec.role == role),
{
    if old.ids().contains(actor_id) {
        assert(new.ids() =~= old.ids());
    } else {
        let t = choose|t: u64|
            new.records() == old.records().push(ActorRecord { actor_id, role, registered_at: t });
        let n = old.ids().len();
        assert(new.ids()[n as int] == actor_id);
        new.lemma_find_at(n as int);
    }
}

} // verus!
