//! Sign-up roster for scheduled group events ("raids") announced in a chat
//! channel: the raids keyed by location, the bindings from announcement
//! messages to raids, the rules that turn reactions into attendance, and the
//! text that the announcement shows.
pub mod codec;
pub mod keyed;
pub mod raid;
pub mod roster;
pub mod router;

pub use codec::{count_from_emoji_data, count_from_emoji_name, emoji_name_from_string};
pub use raid::{is_bot, Embed, EmbedField, Member, Raid, Raider, ShortFall, User};
pub use roster::RaidList;
