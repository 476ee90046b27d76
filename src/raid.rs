//! One raid: its labels and its attendance sequence.
use vstd::prelude::*;
use vstd::string::*;

verus! {

/// A chat user, as far as the roster needs one.
pub struct User {
    pub name: String,
    pub id: u64,
    pub bot: bool,
}

/// A member of the server where a reaction was made: its nickname there, if
/// any, and its user, where the platform sent it.
pub struct Member {
    pub nick: Option<String>,
    pub user: Option<User>,
}

/// A raider as the contracts see it.
pub struct RaiderView {
    pub name: Seq<char>,
    pub user_id: u64,
}

/// One reserved slot of a raid: who holds it and the name shown for it.
#[derive(Debug, Clone)]
pub struct Raider {
    name: String,
    user_id: u64,
}

/// The raider that stands for anyone the platform sent no user for.
pub open spec fn unknown_raider() -> RaiderView {
    RaiderView { name: "Unknown"@, user_id: 0 }
}

/// The raider made from what the platform sent of a member: the nickname if
/// there is one, else the user name, with the user's id.
pub open spec fn raider_from(member: Option<Member>) -> RaiderView {
    match member {
        None => unknown_raider(),
        Some(m) => match m.user {
            None => unknown_raider(),
            Some(u) => match m.nick {
                None => RaiderView { name: u.name@, user_id: u.id },
                Some(nick) => RaiderView { name: nick@, user_id: u.id },
            },
        },
    }
}

/// Whether the member's user is a bot, where the platform said so.
pub open spec fn bot_flag(member: Option<Member>) -> Option<bool> {
    match member {
        None => None,
        Some(m) => match m.user {
            None => None,
            Some(u) => Some(u.bot),
        },
    }
}

/// Whether the member behind a reaction is a bot: `None` where the platform
/// sent no user.
pub fn is_bot(member: &Option<Member>) -> (r: Option<bool>)
    ensures
        r == bot_flag(*member),
{
    match member {
        None => None,
        Some(m) => match &m.user {
            None => None,
            Some(u) => Some(u.bot),
        },
    }
}

impl View for Raider {
    type V = RaiderView;

    closed spec fn view(&self) -> RaiderView {
        RaiderView { name: self.name@, user_id: self.user_id }
    }
}

impl Raider {
    /// The name shown for this raider.
    pub fn as_str(self) -> (r: String)
        ensures
            r@ == self@.name,
    {
        self.name
    }

    /// The platform id of this raider's user; 0 for an unknown one.
    pub fn user_id(&self) -> (r: u64)
        ensures
            r == self@.user_id,
    {
        self.user_id
    }

    /// The raider for a member as the platform sent it.
    pub fn new(member: Option<Member>) -> (r: Self)
        ensures
            r@ == raider_from(member),
    {
        match member {
            None => Raider { name: String::from_str("Unknown"), user_id: 0 },
            Some(member) => match member.user {
                None => Raider { name: String::from_str("Unknown"), user_id: 0 },
                Some(user) => match member.nick {
                    None => Raider { name: user.name, user_id: user.id },
                    Some(nick_name) => Raider { name: nick_name, user_id: user.id },
                },
            },
        }
    }

    /// A copy of this raider.
    pub fn duplicate(&self) -> (r: Self)
        ensures
            r@ == self@,
    {
        Raider { name: self.name.clone(), user_id: self.user_id }
    }
}

/// A raid as the contracts see it.
pub struct RaidView {
    pub time: Seq<char>,
    pub location: Seq<char>,
    pub boss_name: Seq<char>,
    pub raiders: Seq<RaiderView>,
}

/// One scheduled raid. `location` also keys the raid in a roster. A raider
/// may hold several entries of `raiders`, one for each slot reserved.
#[derive(Debug, Clone)]
pub struct Raid {
    pub time: String,
    pub location: String,
    pub boss_name: String,
    pub raiders: Vec<Raider>,
}

/// What was asked of a removal that could not be done in full.
#[derive(Debug, Clone, Copy, PartialEq, Eq)]
pub struct ShortFall {
    /// Entries that were removed.
    pub removed: u8,
    /// Entries that were asked to be removed.
    pub requested: u8,
}

/// One titled field of a raid's announcement.
pub struct EmbedField {
    pub name: String,
    pub value: String,
    pub inline: bool,
}

/// The text of a raid's announcement: its fields, in order, and its footer.
pub struct Embed {
    pub fields: Vec<EmbedField>,
    pub footer: String,
}

impl View for Raid {
    type V = RaidView;

    open spec fn view(&self) -> RaidView {
        RaidView {
            time: self.time@,
            location: self.location@,
            boss_name: self.boss_name@,
            raiders: self.raiders@.map_values(|r: Raider| r@),
        }
    }
}

/// `raid` with its attendance sequence replaced by `raiders`.
pub open spec fn with_raiders(raid: RaidView, raiders: Seq<RaiderView>) -> RaidView {
    RaidView {
        time: raid.time,
        location: raid.location,
        boss_name: raid.boss_name,
        raiders,
    }
}

/// `raid` with `n` entries of `r` added at the end of its attendance sequence.
pub open spec fn added(raid: RaidView, r: RaiderView, n: nat) -> RaidView {
    with_raiders(raid, raid.raiders + copies(r, n))
}

/// `raid` after `n` removals of the first entry held by user `id`.
pub open spec fn removed(raid: RaidView, id: u64, n: nat) -> RaidView {
    with_raiders(raid, remove_n(raid.raiders, id, n))
}

/// `n` entries of `r`.
pub open spec fn copies(r: RaiderView, n: nat) -> Seq<RaiderView> {
    Seq::new(n, |_i: int| r)
}

/// The entries of `s` held by user `id`.
pub open spec fn count_id(s: Seq<RaiderView>, id: u64) -> nat
    decreases s.len(),
{
    if s.len() == 0 {
        0
    } else {
        (if s[0].user_id == id {
            1nat
        } else {
            0nat
        }) + count_id(s.drop_first(), id)
    }
}

/// `s` without its first entry held by user `id` (all of `s` where there is
/// none).
pub open spec fn remove_one(s: Seq<RaiderView>, id: u64) -> Seq<RaiderView>
    decreases s.len(),
{
    if s.len() == 0 {
        s
    } else if s[0].user_id == id {
        s.drop_first()
    } else {
        seq![s[0]] + remove_one(s.drop_first(), id)
    }
}

/// `s` after `n` removals of the first entry held by user `id`.
pub open spec fn remove_n(s: Seq<RaiderView>, id: u64, n: nat) -> Seq<RaiderView>
    decreases n,
{
    if n == 0 {
        s
    } else {
        remove_one(remove_n(s, id, (n - 1) as nat), id)
    }
}

/// The names of `s`, each on a line of its own.
pub open spec fn name_lines(s: Seq<RaiderView>) -> Seq<char>
    decreases s.len(),
{
    if s.len() == 0 {
        Seq::empty()
    } else {
        name_lines(s.drop_last()) + s.last().name + "\n"@
    }
}

/// The attendee listing of an announcement.
pub open spec fn listing(s: Seq<RaiderView>) -> Seq<char> {
    if s.len() == 0 {
        "Ei ilmoittautuneita"@
    } else {
        name_lines(s)
    }
}

proof fn lemma_remove_at(s: Seq<RaiderView>, id: u64, i: int)
    requires
        0 <= i < s.len(),
        s[i].user_id == id,
        forall|j: int| 0 <= j < i ==> s[j].user_id != id,
    ensures
        remove_one(s, id) == s.remove(i),
        count_id(s.remove(i), id) + 1 == count_id(s, id),
    decreases i,
{
    if i == 0 {
        assert(s.drop_first() =~= s.remove(0));
    } else {
        let t = s.drop_first();
        lemma_remove_at(t, id, i - 1);
        assert(seq![s[0]] + t.remove(i - 1) =~= s.remove(i));
        assert(s.remove(i).drop_first() =~= t.remove(i - 1));
    }
}

proof fn lemma_no_match(s: Seq<RaiderView>, id: u64)
    requires
        forall|j: int| 0 <= j < s.len() ==> s[j].user_id != id,
    ensures
        remove_one(s, id) == s,
        count_id(s, id) == 0,
    decreases s.len(),
{
    if s.len() > 0 {
        lemma_no_match(s.drop_first(), id);
        assert(seq![s[0]] + s.drop_first() =~= s);
    }
}

proof fn lemma_remove_n_stable(s: Seq<RaiderView>, id: u64, k: nat, m: nat)
    requires
        k <= m,
        remove_one(remove_n(s, id, k), id) == remove_n(s, id, k),
    ensures
        remove_n(s, id, m) == remove_n(s, id, k),
    decreases m,
{
    if m > k {
        lemma_remove_n_stable(s, id, k, (m - 1) as nat);
    }
}

proof fn lemma_count_concat(s: Seq<RaiderView>, t: Seq<RaiderView>, id: u64)
    ensures
        count_id(s + t, id) == count_id(s, id) + count_id(t, id),
    decreases s.len(),
{
    if s.len() > 0 {
        assert((s + t).drop_first() =~= s.drop_first() + t);
        lemma_count_concat(s.drop_first(), t, id);
    } else {
        assert(s + t =~= t);
    }
}

proof fn lemma_count_copies(r: RaiderView, n: nat)
    ensures
        count_id(copies(r, n), r.user_id) == n,
    decreases n,
{
    if n > 0 {
        assert(copies(r, n).drop_first() =~= copies(r, (n - 1) as nat));
        lemma_count_copies(r, (n - 1) as nat);
    }
}

proof fn lemma_remove_one_counts(s: Seq<RaiderView>, id: u64)
    ensures
        count_id(s, id) > 0 ==> count_id(remove_one(s, id), id) + 1 == count_id(s, id)
            && remove_one(s, id).len() + 1 == s.len(),
        count_id(s, id) == 0 ==> remove_one(s, id) == s,
    decreases s.len(),
{
    if s.len() > 0 {
        let t = s.drop_first();
        lemma_remove_one_counts(t, id);
        if s[0].user_id != id {
            let u = seq![s[0]] + remove_one(t, id);
            assert(u.drop_first() =~= remove_one(t, id));
            assert(seq![s[0]] + t =~= s);
        }
    }
}

/// Adding a raider `a` times and then `b` times is adding it `a + b` times:
/// the raider then holds `a + b` more entries, placed after all entries that
/// were there before, which keep their order.
pub proof fn law_adds_accumulate(raid: RaidView, r: RaiderView, a: nat, b: nat)
    ensures
        added(added(raid, r, a), r, b) == added(raid, r, a + b),
        count_id(added(raid, r, a + b).raiders, r.user_id) == count_id(raid.raiders, r.user_id)
            + a + b,
        added(raid, r, a + b).raiders.subrange(0, raid.raiders.len() as int) == raid.raiders,
{
    assert(raid.raiders + copies(r, a) + copies(r, b) =~= raid.raiders + copies(r, a + b));
    lemma_count_concat(raid.raiders, copies(r, a + b), r.user_id);
    lemma_count_copies(r, a + b);
    assert(added(raid, r, a + b).raiders.subrange(0, raid.raiders.len() as int) =~= raid.raiders);
}

/// Removing `n` entries of user `id` removes as many as there are, `n` at
/// most, and no entry of anyone else.
pub proof fn law_removal_conservative(raid: RaidView, id: u64, n: nat)
    ensures
        n <= count_id(raid.raiders, id) ==> count_id(removed(raid, id, n).raiders, id) + n
            == count_id(raid.raiders, id) && removed(raid, id, n).raiders.len() + n
            == raid.raiders.len(),
        n >= count_id(raid.raiders, id) ==> count_id(removed(raid, id, n).raiders, id) == 0
            && removed(raid, id, n).raiders.len() + count_id(raid.raiders, id)
            == raid.raiders.len(),
    decreases n,
{
    if n > 0 {
        let m = (n - 1) as nat;
        law_removal_conservative(raid, id, m);
        lemma_remove_one_counts(remove_n(raid.raiders, id, m), id);
    }
}

impl Raid {
    /// A raid with these labels and no one signed up.
    pub fn new(time: &String, location: &String, boss_name: &String) -> (r: Raid)
        ensures
            r@ == (RaidView {
                time: time@,
                location: location@,
                boss_name: boss_name@,
                raiders: Seq::empty(),
            }),
    {
        let r = Raid {
            time: time.clone(),
            location: location.clone(),
            boss_name: boss_name.clone(),
            raiders: Vec::new(),
        };
        assert(r@.raiders =~= Seq::empty());
        r
    }

    /// A copy of this raid, to be changed apart from the one it was taken
    /// from.
    pub fn snapshot(&self) -> (r: Raid)
        ensures
            r@ == self@,
    {
        let mut raiders: Vec<Raider> = Vec::new();
        let mut i: usize = 0;
        while i < self.raiders.len()
            invariant
                i <= self.raiders@.len(),
                raiders@.map_values(|r: Raider| r@) =~= self@.raiders.subrange(0, i as int),
            decreases self.raiders@.len() - i,
        {
            let ghost before = raiders@;
            raiders.push(self.raiders[i].duplicate());
            assert(raiders@ =~= before.push(raiders@.last()));
            assert(self@.raiders.subrange(0, i as int + 1) =~= self@.raiders.subrange(
                0,
                i as int,
            ).push(self@.raiders[i as int]));
            i = i + 1;
        }
        let r = Raid {
            time: self.time.clone(),
            location: self.location.clone(),
            boss_name: self.boss_name.clone(),
            raiders,
        };
        assert(r@.raiders =~= self@.raiders);
        r
    }

    /// Adds `count` entries of `raider` at the end of the attendance
    /// sequence.
    pub fn add_raider(&mut self, raider: Raider, count: u8)
        ensures
            final(self)@ == added(old(self)@, raider@, count as nat),
    {
        let mut i: u8 = 0;
        while i < count
            invariant
                i <= count,
                self@ == with_raiders(old(self)@, old(self)@.raiders + copies(raider@, i as nat)),
            decreases count - i,
        {
            let ghost before = self@.raiders;
            self.raiders.push(raider.duplicate());
            assert(self@.raiders =~= before.push(raider@));
            assert(old(self)@.raiders + copies(raider@, (i + 1) as nat) =~= (old(self)@.raiders
                + copies(raider@, i as nat)).push(raider@));
            i = i + 1;
        }
    }

    /// Removes, `count` times, the first entry held by user `user_id`. Stops
    /// where none is left and then reports how many were removed.
    pub fn remove_raider(&mut self, user_id: u64, count: u8) -> (r: Result<(), ShortFall>)
        ensures
            final(self)@ == removed(old(self)@, user_id, count as nat),
            r.is_ok() <==> count_id(old(self)@.raiders, user_id) >= count,
            r matches Err(e) ==> e.removed as nat == count_id(old(self)@.raiders, user_id)
                && e.requested == count,
    {
        let mut i: u8 = 0;
        while i < count
            invariant
                i <= count,
                self@ == with_raiders(
                    old(self)@,
                    remove_n(old(self)@.raiders, user_id, i as nat),
                ),
                count_id(self@.raiders, user_id) + i == count_id(old(self)@.raiders, user_id),
            decreases count - i,
        {
            let len = self.raiders.len();
            let mut j: usize = 0;
            while j < len
                invariant
                    len == self@.raiders.len(),
                    j <= len,
                    forall|k: int| 0 <= k < j ==> self@.raiders[k].user_id != user_id,
                ensures
                    j <= len,
                    forall|k: int| 0 <= k < j ==> self@.raiders[k].user_id != user_id,
                    j == len || self@.raiders[j as int].user_id == user_id,
                decreases len - j,
            {
                if self.raiders[j].user_id == user_id {
                    break;
                }
                j = j + 1;
            }
            if j == len {
                proof {
                    lemma_no_match(self@.raiders, user_id);
                    lemma_remove_n_stable(old(self)@.raiders, user_id, i as nat, count as nat);
                }
                return Err(ShortFall { removed: i, requested: count });
            }
            let ghost before = self@.raiders;
            proof {
                lemma_remove_at(before, user_id, j as int);
            }
            self.raiders.remove(j);
            assert(self@.raiders =~= before.remove(j as int));
            i = i + 1;
        }
        Ok(())
    }

    /// The attendee listing: each raider's name on a line of its own, or a
    /// note that no one has signed up.
    pub fn attendee_listing(&self) -> (r: String)
        ensures
            r@ == listing(self@.raiders),
    {
        if self.raiders.len() == 0 {
            return String::from_str("Ei ilmoittautuneita");
        }
        let mut out = String::new();
        let mut i: usize = 0;
        while i < self.raiders.len()
            invariant
                i <= self.raiders@.len(),
                out@ == name_lines(self@.raiders.subrange(0, i as int)),
            decreases self.raiders@.len() - i,
        {
            let ghost prefix = self@.raiders.subrange(0, i as int + 1);
            assert(prefix.drop_last() =~= self@.raiders.subrange(0, i as int));
            out.append(self.raiders[i].name.as_str());
            out.append("\n");
            i = i + 1;
        }
        assert(self@.raiders.subrange(0, self@.raiders.len() as int) =~= self@.raiders);
        out
    }

    /// The announcement of this raid: time, boss, location and attendee
    /// listing, with a footer that points to the help command.
    pub fn as_embed(self) -> (r: Embed)
        ensures
            r.fields@.len() == 4,
            r.fields@[0].name@ == "Aika"@ && r.fields@[0].value@ == self@.time
                && r.fields@[0].inline,
            r.fields@[1].name@ == "Boss"@ && r.fields@[1].value@ == self@.boss_name
                && r.fields@[1].inline,
            r.fields@[2].name@ == "Paikka"@ && r.fields@[2].value@ == self@.location
                && !r.fields@[2].inline,
            r.fields@[3].name@ == "Ilmoittautuneet"@ && r.fields@[3].value@ == listing(
                self@.raiders,
            ) && !r.fields@[3].inline,
            r.footer@ == "Kysy apua: !help"@,
    {
        let listing = self.attendee_listing();
        let mut fields: Vec<EmbedField> = Vec::new();
        fields.push(EmbedField { name: String::from_str("Aika"), value: self.time, inline: true });
        fields.push(
            EmbedField { name: String::from_str("Boss"), value: self.boss_name, inline: true },
        );
        fields.push(
            EmbedField { name: String::from_str("Paikka"), value: self.location, inline: false },
        );
        fields.push(
            EmbedField { name: String::from_str("Ilmoittautuneet"), value: listing, inline: false },
        );
        Embed { fields, footer: String::from_str("Kysy apua: !help") }
    }
}

} // verus!
