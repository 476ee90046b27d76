//! What a reaction on an announcement does to the roster. Each decision
//! returns the changed copy of the raid; it is published with
//! `RaidList::update_raid` once the announcement shows it.
use vstd::prelude::*;

use crate::codec::{count_from_emoji_data, count_of, emoji_name_of};
use crate::raid::{added, bot_flag, count_id, is_bot, raider_from, removed, Member, Raid, RaidView, Raider, ShortFall};
use crate::roster::{opt_view, resolved, RaidList, RosterView};

verus! {

/// An added reaction counts only where the platform says that its member is
/// no bot: one it sent no user for is taken for a bot.
pub open spec fn add_accepted(member: Option<Member>) -> bool {
    bot_flag(member) == Some(false)
}

/// A removed reaction counts unless the platform says that its member is a
/// bot: removal events mostly come without a user.
pub open spec fn remove_accepted(member: Option<Member>) -> bool {
    bot_flag(member) != Some(true)
}

/// Slots that a reaction with the encoded form `data` stands for.
pub open spec fn reaction_slots(data: Seq<char>) -> nat {
    count_of(emoji_name_of(data)) as nat
}

/// The raid that an added reaction leaves, if it changes one.
pub open spec fn after_add(v: RosterView, msg: u64, member: Option<Member>, data: Seq<char>) -> Option<
    RaidView,
> {
    match resolved(v, msg) {
        Some(raid) => if add_accepted(member) {
            Some(added(raid, raider_from(member), reaction_slots(data)))
        } else {
            None
        },
        None => None,
    }
}

/// The raid that a removed reaction leaves, if it changes one.
pub open spec fn after_remove(
    v: RosterView,
    msg: u64,
    member: Option<Member>,
    user_id: Option<u64>,
    data: Seq<char>,
) -> Option<RaidView> {
    match (resolved(v, msg), user_id) {
        (Some(raid), Some(id)) => if remove_accepted(member) {
            Some(removed(raid, id, reaction_slots(data)))
        } else {
            None
        },
        _ => None,
    }
}

impl RaidList {
    /// The raid that message `message_id` shows, with the slots of a reaction
    /// of `member` added; `None` where the reaction changes nothing.
    pub fn reaction_added(&self, message_id: u64, member: Option<Member>, emoji_data: &str) -> (r:
        Option<Raid>)
        requires
            self.wf(),
        ensures
            opt_view(r) == after_add(self@, message_id, member, emoji_data@),
    {
        let accepted = match is_bot(&member) {
            Some(bot) => !bot,
            None => false,
        };
        if !accepted {
            return None;
        }
        match self.resolve_by_message(message_id) {
            None => None,
            Some(raid) => {
                let mut raid = raid;
                let count = count_from_emoji_data(emoji_data);
                raid.add_raider(Raider::new(member), count);
                Some(raid)
            },
        }
    }

    /// The raid that message `message_id` shows, with the slots of a reaction
    /// of user `user_id` removed, and whether all of them could be; `None`
    /// where the reaction changes nothing.
    pub fn reaction_removed(
        &self,
        message_id: u64,
        member: Option<Member>,
        user_id: Option<u64>,
        emoji_data: &str,
    ) -> (r: Option<(Raid, Result<(), ShortFall>)>)
        requires
            self.wf(),
        ensures
            r.is_some() == after_remove(self@, message_id, member, user_id, emoji_data@).is_some(),
            r matches Some(p) ==> Some(p.0@) == after_remove(
                self@,
                message_id,
                member,
                user_id,
                emoji_data@,
            ) && (p.1.is_ok() <==> count_id(
                resolved(self@, message_id).unwrap().raiders,
                user_id.unwrap(),
            ) >= reaction_slots(emoji_data@)),
    {
        let accepted = match is_bot(&member) {
            Some(bot) => !bot,
            None => true,
        };
        if !accepted {
            return None;
        }
        match user_id {
            None => None,
            Some(id) => match self.resolve_by_message(message_id) {
                None => None,
                Some(raid) => {
                    let mut raid = raid;
                    let count = count_from_emoji_data(emoji_data);
                    let res = raid.remove_raider(id, count);
                    Some((raid, res))
                },
            },
        }
    }
}

/// A reaction on a message that is not bound changes no raid, whether it is
/// added or removed.
pub proof fn law_unbound_reaction_ignored(
    v: RosterView,
    msg: u64,
    member: Option<Member>,
    user_id: Option<u64>,
    data: Seq<char>,
)
    requires
        !v.bindings.contains_key(msg),
    ensures
        after_add(v, msg, member, data) == None::<RaidView>,
        after_remove(v, msg, member, user_id, data) == None::<RaidView>,
{
}

} // verus!
