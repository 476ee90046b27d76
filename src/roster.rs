//! The roster store: raids by location, and the announcement messages bound
//! to them.
use vstd::prelude::*;

use crate::keyed::{keyed, lemma_keyed_absent, lemma_keyed_index, lemma_keyed_push, lemma_keyed_update, unique_keys};
use crate::raid::{added, removed, count_id, Raid, Raider, RaidView, ShortFall};

verus! {

/// A roster store as the contracts see it.
pub struct RosterView {
    /// The raid stored under each location key.
    pub raids: Map<Seq<char>, RaidView>,
    /// The location key that each bound message shows.
    pub bindings: Map<u64, Seq<char>>,
}

/// `v` with `raid` stored under `key`, in place of any raid stored there.
pub open spec fn with_raid(v: RosterView, key: Seq<char>, raid: RaidView) -> RosterView {
    RosterView { raids: v.raids.insert(key, raid), bindings: v.bindings }
}

/// `v` with message `msg` bound to the location key `key`.
pub open spec fn with_binding(v: RosterView, msg: u64, key: Seq<char>) -> RosterView {
    RosterView { raids: v.raids, bindings: v.bindings.insert(msg, key) }
}

/// The raid that message `msg` shows, where it is bound to a key under which
/// a raid is stored.
pub open spec fn resolved(v: RosterView, msg: u64) -> Option<RaidView> {
    if v.bindings.contains_key(msg) && v.raids.contains_key(v.bindings[msg]) {
        Some(v.raids[v.bindings[msg]])
    } else {
        None
    }
}

/// The view of an optional raid.
pub open spec fn opt_view(r: Option<Raid>) -> Option<RaidView> {
    match r {
        Some(raid) => Some(raid@),
        None => None,
    }
}

/// All raids, and the bindings of their announcement messages.
pub struct RaidList {
    raids: Vec<(String, Raid)>,
    msg_to_location: Vec<(u64, String)>,
}

impl View for RaidList {
    type V = RosterView;

    closed spec fn view(&self) -> RosterView {
        RosterView { raids: keyed(self.raid_entries()), bindings: keyed(self.binding_entries()) }
    }
}

impl RaidList {
    closed spec fn raid_entries(&self) -> Seq<(Seq<char>, RaidView)> {
        self.raids@.map_values(|e: (String, Raid)| (e.0@, e.1@))
    }

    closed spec fn binding_entries(&self) -> Seq<(u64, Seq<char>)> {
        self.msg_to_location@.map_values(|e: (u64, String)| (e.0, e.1@))
    }

    /// Each location key and each message is stored once.
    pub closed spec fn wf(&self) -> bool {
        unique_keys(self.raid_entries()) && unique_keys(self.binding_entries())
    }

    /// An empty store.
    pub fn new() -> (r: RaidList)
        ensures
            r.wf(),
            r@.raids == Map::<Seq<char>, RaidView>::empty(),
            r@.bindings == Map::<u64, Seq<char>>::empty(),
    {
        let r = RaidList { raids: Vec::new(), msg_to_location: Vec::new() };
        assert(r.raid_entries() =~= Seq::empty());
        assert(r.binding_entries() =~= Seq::empty());
        r
    }

    /// The index of the entry stored under `key`, if any.
    fn find_raid(&self, key: &String) -> (r: Option<usize>)
        requires
            self.wf(),
        ensures
            match r {
                Some(i) => i < self.raids@.len() && self.raid_entries()[i as int].0 == key@,
                None => !self@.raids.contains_key(key@),
            },
    {
        let mut i: usize = 0;
        while i < self.raids.len()
            invariant
                i <= self.raids@.len(),
                forall|j: int| 0 <= j < i ==> self.raid_entries()[j].0 != key@,
            decreases self.raids@.len() - i,
        {
            if self.raids[i].0 == *key {
                return Some(i);
            }
            i = i + 1;
        }
        proof {
            lemma_keyed_absent(self.raid_entries(), key@);
        }
        None
    }

    /// The index of the binding of message `msg_id`, if any.
    fn find_binding(&self, msg_id: u64) -> (r: Option<usize>)
        requires
            self.wf(),
        ensures
            match r {
                Some(i) => i < self.msg_to_location@.len() && self.binding_entries()[i as int].0
                    == msg_id,
                None => !self@.bindings.contains_key(msg_id),
            },
    {
        let mut i: usize = 0;
        while i < self.msg_to_location.len()
            invariant
                i <= self.msg_to_location@.len(),
                forall|j: int| 0 <= j < i ==> self.binding_entries()[j].0 != msg_id,
            decreases self.msg_to_location@.len() - i,
        {
            if self.msg_to_location[i].0 == msg_id {
                return Some(i);
            }
            i = i + 1;
        }
        proof {
            lemma_keyed_absent(self.binding_entries(), msg_id);
        }
        None
    }

    /// Stores `raid` under `key`, in place of any raid stored there.
    fn store(&mut self, key: &String, raid: Raid)
        requires
            old(self).wf(),
        ensures
            final(self).wf(),
            final(self)@ == with_raid(old(self)@, key@, raid@),
    {
        let ghost entries = self.raid_entries();
        let ghost bindings = self.binding_entries();
        match self.find_raid(key) {
            Some(i) => {
                proof {
                    lemma_keyed_update(entries, i as int, raid@);
                }
                self.raids.set(i, (key.clone(), raid));
                assert(self.raid_entries() =~= entries.update(i as int, (entries[i as int].0, raid@)));
            },
            None => {
                proof {
                    lemma_keyed_push(entries, (key@, raid@));
                    assert forall|j: int| 0 <= j < entries.len() implies entries[j].0 != key@ by {
                        lemma_keyed_index(entries, j);
                    }
                }
                self.raids.push((key.clone(), raid));
                assert(self.raid_entries() =~= entries.push((key@, raid@)));
            },
        }
        assert(self.binding_entries() =~= bindings);
    }

    /// Stores a copy of `raid` under `raid_key`, in place of any raid stored
    /// there.
    pub fn add_raid(&mut self, raid_key: &String, raid: &Raid)
        requires
            old(self).wf(),
        ensures
            final(self).wf(),
            final(self)@ == with_raid(old(self)@, raid_key@, raid@),
    {
        self.store(raid_key, raid.snapshot());
    }

    /// Publishes `raid` as the state of the raid under `raid_key`.
    pub fn update_raid(&mut self, raid_key: &String, raid: &Raid)
        requires
            old(self).wf(),
        ensures
            final(self).wf(),
            final(self)@ == with_raid(old(self)@, raid_key@, raid@),
    {
        self.store(raid_key, raid.snapshot());
    }

    /// Records that message `msg_id` shows the raid under `raid_key`.
    pub fn add_raid_by_message(&mut self, msg_id: u64, raid_key: &String)
        requires
            old(self).wf(),
        ensures
            final(self).wf(),
            final(self)@ == with_binding(old(self)@, msg_id, raid_key@),
    {
        let ghost entries = self.binding_entries();
        let ghost raids = self.raid_entries();
        match self.find_binding(msg_id) {
            Some(i) => {
                proof {
                    lemma_keyed_update(entries, i as int, raid_key@);
                }
                self.msg_to_location.set(i, (msg_id, raid_key.clone()));
                assert(self.binding_entries() =~= entries.update(
                    i as int,
                    (entries[i as int].0, raid_key@),
                ));
            },
            None => {
                proof {
                    lemma_keyed_push(entries, (msg_id, raid_key@));
                    assert forall|j: int| 0 <= j < entries.len() implies entries[j].0
                        != msg_id by {
                        lemma_keyed_index(entries, j);
                    }
                }
                self.msg_to_location.push((msg_id, raid_key.clone()));
                assert(self.binding_entries() =~= entries.push((msg_id, raid_key@)));
            },
        }
        assert(self.raid_entries() =~= raids);
    }

    /// Creates a raid with no one signed up and stores it under its location,
    /// in place of any raid stored there. Returns the raid.
    pub fn create_raid(&mut self, time: &String, boss_name: &String, location: &String) -> (r:
        Raid)
        requires
            old(self).wf(),
        ensures
            final(self).wf(),
            r@ == new_raid(time@, location@, boss_name@),
            final(self)@ == with_raid(old(self)@, location@, r@),
    {
        let raid = Raid::new(time, location, boss_name);
        self.add_raid(location, &raid);
        raid
    }

    /// A copy of the raid that message `msg_id` shows; `None` where the
    /// message is not bound, or no raid is stored under its key.
    pub fn resolve_by_message(&self, msg_id: u64) -> (r: Option<Raid>)
        requires
            self.wf(),
        ensures
            opt_view(r) == resolved(self@, msg_id),
    {
        match self.find_binding(msg_id) {
            None => None,
            Some(b) => {
                proof {
                    lemma_keyed_index(self.binding_entries(), b as int);
                }
                match self.find_raid(&self.msg_to_location[b].1) {
                    None => None,
                    Some(i) => {
                        proof {
                            lemma_keyed_index(self.raid_entries(), i as int);
                        }
                        Some(self.raids[i].1.snapshot())
                    },
                }
            },
        }
    }
}

impl RaidList {
    /// Adds `count` entries of `raider` to the raid under `location`; `false`,
    /// with nothing changed, where no raid is stored there.
    pub fn add_attendance(&mut self, location: &String, raider: Raider, count: u8) -> (r: bool)
        requires
            old(self).wf(),
        ensures
            final(self).wf(),
            r == old(self)@.raids.contains_key(location@),
            r ==> final(self)@ == with_raid(
                old(self)@,
                location@,
                added(old(self)@.raids[location@], raider@, count as nat),
            ),
            !r ==> final(self)@ == old(self)@,
    {
        match self.find_raid(location) {
            None => false,
            Some(i) => {
                proof {
                    lemma_keyed_index(self.raid_entries(), i as int);
                }
                let mut raid = self.raids[i].1.snapshot();
                raid.add_raider(raider, count);
                self.store(location, raid);
                true
            },
        }
    }

    /// Removes, `count` times, the first entry held by user `user_id` from
    /// the raid under `location`, as far as there are such entries. `None`,
    /// with nothing changed, where no raid is stored there; else whether all
    /// `count` removals could be made.
    pub fn remove_attendance(&mut self, location: &String, user_id: u64, count: u8) -> (r: Option<
        Result<(), ShortFall>,
    >)
        requires
            old(self).wf(),
        ensures
            final(self).wf(),
            r.is_some() == old(self)@.raids.contains_key(location@),
            r.is_some() ==> final(self)@ == with_raid(
                old(self)@,
                location@,
                removed(old(self)@.raids[location@], user_id, count as nat),
            ),
            r.is_none() ==> final(self)@ == old(self)@,
            r matches Some(res) ==> (res.is_ok() <==> count_id(
                old(self)@.raids[location@].raiders,
                user_id,
            ) >= count),
            r matches Some(Err(e)) ==> e.removed as nat == count_id(
                old(self)@.raids[location@].raiders,
                user_id,
            ) && e.requested == count,
    {
        match self.find_raid(location) {
            None => None,
            Some(i) => {
                proof {
                    lemma_keyed_index(self.raid_entries(), i as int);
                }
                let mut raid = self.raids[i].1.snapshot();
                let res = raid.remove_raider(user_id, count);
                self.store(location, raid);
                Some(res)
            },
        }
    }
}

/// A raid made from these labels, with no one signed up.
pub open spec fn new_raid(time: Seq<char>, location: Seq<char>, boss_name: Seq<char>) -> RaidView {
    RaidView { time, location, boss_name, raiders: Seq::empty() }
}

/// A raid just created under its location and then bound to a message is
/// what that message resolves to, unchanged.
pub proof fn law_resolve_after_create(
    v: RosterView,
    time: Seq<char>,
    boss_name: Seq<char>,
    location: Seq<char>,
    msg: u64,
)
    ensures
        resolved(
            with_binding(with_raid(v, location, new_raid(time, location, boss_name)), msg, location),
            msg,
        ) == Some(new_raid(time, location, boss_name)),
{
}

/// A message that is not bound resolves to no raid.
pub proof fn law_unbound_unresolved(v: RosterView, msg: u64)
    requires
        !v.bindings.contains_key(msg),
    ensures
        resolved(v, msg) == None::<RaidView>,
{
}

/// Of two raids stored under one key, the one stored last is all that
/// remains: nothing of the first is kept.
pub proof fn law_last_store_wins(v: RosterView, key: Seq<char>, first: RaidView, second: RaidView)
    ensures
        with_raid(with_raid(v, key, first), key, second) == with_raid(v, key, second),
{
    assert(with_raid(with_raid(v, key, first), key, second).raids =~= with_raid(
        v,
        key,
        second,
    ).raids);
}

} // verus!
