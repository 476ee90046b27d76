use raid_roster::{
    count_from_emoji_data, count_from_emoji_name, emoji_name_from_string, is_bot, Member, Raid,
    RaidList, Raider, ShortFall, User,
};

fn s(text: &str) -> String {
    text.to_string()
}

fn member(name: &str, nick: Option<&str>, id: u64, bot: bool) -> Option<Member> {
    Some(Member {
        nick: nick.map(|n| n.to_string()),
        user: Some(User { name: s(name), id, bot }),
    })
}

fn names(raid: &Raid) -> Vec<String> {
    raid.raiders.iter().map(|r| r.clone().as_str()).collect()
}

fn lava_roster() -> RaidList {
    let mut list = RaidList::new();
    list.create_raid(&s("20:00"), &s("Draugr"), &s("Lava"));
    list.add_raid_by_message(1001, &s("Lava"));
    list
}

#[test]
fn codec_counts_each_symbol() {
    assert_eq!(count_from_emoji_data("1_:503269083953758265"), 1);
    assert_eq!(count_from_emoji_data("2_:503269083731460107"), 2);
    assert_eq!(count_from_emoji_data("3_:503269084075393024"), 3);
    assert_eq!(count_from_emoji_data("👍"), 1);
    assert_eq!(count_from_emoji_data("4_:1"), 1);
    assert_eq!(count_from_emoji_data("2_x:1"), 1);
    assert_eq!(count_from_emoji_data(""), 1);
}

#[test]
fn codec_name_is_text_before_first_colon() {
    assert_eq!(emoji_name_from_string("2_:503269083731460107"), "2_");
    assert_eq!(emoji_name_from_string("a:b:c"), "a");
    assert_eq!(emoji_name_from_string("plain"), "plain");
    assert_eq!(emoji_name_from_string(":x"), "");
    assert_eq!(emoji_name_from_string(""), "");
}

#[test]
fn codec_count_from_name() {
    assert_eq!(count_from_emoji_name(&s("1_")), 1);
    assert_eq!(count_from_emoji_name(&s("2_")), 2);
    assert_eq!(count_from_emoji_name(&s("3_")), 3);
    assert_eq!(count_from_emoji_name(&s("3")), 1);
    assert_eq!(count_from_emoji_name(&s("")), 1);
}

#[test]
fn raider_prefers_nickname() {
    let r = Raider::new(member("aino_k", Some("Aino"), 42, false));
    assert_eq!(r.user_id(), 42);
    assert_eq!(r.as_str(), "Aino");
    let r = Raider::new(member("aino_k", None, 42, false));
    assert_eq!(r.as_str(), "aino_k");
}

#[test]
fn raider_unknown_without_user() {
    let r = Raider::new(None);
    assert_eq!(r.user_id(), 0);
    assert_eq!(r.as_str(), "Unknown");
    let r = Raider::new(Some(Member { nick: Some(s("Nick")), user: None }));
    assert_eq!(r.user_id(), 0);
    assert_eq!(r.as_str(), "Unknown");
}

#[test]
fn bot_flag_of_member() {
    assert_eq!(is_bot(&None), None);
    assert_eq!(is_bot(&Some(Member { nick: None, user: None })), None);
    assert_eq!(is_bot(&member("b", None, 1, true)), Some(true));
    assert_eq!(is_bot(&member("h", None, 2, false)), Some(false));
}

#[test]
fn adds_accumulate_in_order() {
    let mut raid = Raid::new(&s("20:00"), &s("Lava"), &s("Draugr"));
    raid.add_raider(Raider::new(member("x", Some("Eero"), 7, false)), 1);
    raid.add_raider(Raider::new(member("y", Some("Aino"), 42, false)), 2);
    raid.add_raider(Raider::new(member("z", Some("Ville"), 9, false)), 1);
    raid.add_raider(Raider::new(member("y", Some("Aino"), 42, false)), 1);
    assert_eq!(names(&raid), vec!["Eero", "Aino", "Aino", "Ville", "Aino"]);
}

#[test]
fn add_zero_changes_nothing() {
    let mut raid = Raid::new(&s("20:00"), &s("Lava"), &s("Draugr"));
    raid.add_raider(Raider::new(member("y", None, 42, false)), 0);
    assert!(raid.raiders.is_empty());
}

#[test]
fn removal_short_fall_removes_what_exists() {
    let mut raid = Raid::new(&s("20:00"), &s("Lava"), &s("Draugr"));
    raid.add_raider(Raider::new(member("x", Some("Eero"), 7, false)), 1);
    raid.add_raider(Raider::new(member("y", Some("Aino"), 42, false)), 1);
    let res = raid.remove_raider(42, 2);
    assert_eq!(res, Err(ShortFall { removed: 1, requested: 2 }));
    assert_eq!(names(&raid), vec!["Eero"]);
}

#[test]
fn removal_takes_first_entries() {
    let mut raid = Raid::new(&s("20:00"), &s("Lava"), &s("Draugr"));
    raid.add_raider(Raider::new(member("y", Some("Aino"), 42, false)), 1);
    raid.add_raider(Raider::new(member("x", Some("Eero"), 7, false)), 1);
    raid.add_raider(Raider::new(member("y", Some("Aino2"), 42, false)), 1);
    assert_eq!(raid.remove_raider(42, 1), Ok(()));
    assert_eq!(names(&raid), vec!["Eero", "Aino2"]);
}

#[test]
fn removal_of_absent_user_on_empty_raid() {
    let mut raid = Raid::new(&s("20:00"), &s("Lava"), &s("Draugr"));
    assert_eq!(
        raid.remove_raider(5, 3),
        Err(ShortFall { removed: 0, requested: 3 })
    );
    assert!(raid.raiders.is_empty());
}

#[test]
fn listing_and_embed() {
    let mut raid = Raid::new(&s("20:00"), &s("Lava"), &s("Draugr"));
    assert_eq!(raid.attendee_listing(), "Ei ilmoittautuneita");
    raid.add_raider(Raider::new(member("y", Some("Aino"), 42, false)), 2);
    assert_eq!(raid.attendee_listing(), "Aino\nAino\n");
    let embed = raid.as_embed();
    let fields: Vec<(String, String, bool)> = embed
        .fields
        .into_iter()
        .map(|f| (f.name, f.value, f.inline))
        .collect();
    assert_eq!(
        fields,
        vec![
            (s("Aika"), s("20:00"), true),
            (s("Boss"), s("Draugr"), true),
            (s("Paikka"), s("Lava"), false),
            (s("Ilmoittautuneet"), s("Aino\nAino\n"), false),
        ]
    );
    assert_eq!(embed.footer, "Kysy apua: !help");
}

#[test]
fn create_then_resolve_returns_raid() {
    let mut list = RaidList::new();
    let raid = list.create_raid(&s("20:00"), &s("Draugr"), &s("Lava"));
    list.add_raid_by_message(77, &s("Lava"));
    let got = list.resolve_by_message(77).unwrap();
    assert_eq!(got.time, raid.time);
    assert_eq!(got.boss_name, "Draugr");
    assert_eq!(got.location, "Lava");
    assert!(got.raiders.is_empty());
}

#[test]
fn unbound_message_resolves_to_nothing() {
    let list = lava_roster();
    assert!(list.resolve_by_message(5).is_none());
    assert!(RaidList::new().resolve_by_message(1001).is_none());
}

#[test]
fn binding_to_missing_location_resolves_to_nothing() {
    let mut list = RaidList::new();
    list.add_raid_by_message(3, &s("Nowhere"));
    assert!(list.resolve_by_message(3).is_none());
}

#[test]
fn scenario_add_twice_listed() {
    let mut list = lava_roster();
    let raid = list
        .reaction_added(1001, member("aino_k", Some("Aino"), 42, false), "2_:503269083731460107")
        .unwrap();
    list.update_raid(&raid.location, &raid);
    let got = list.resolve_by_message(1001).unwrap();
    assert_eq!(names(&got), vec!["Aino", "Aino"]);
    assert_eq!(got.attendee_listing(), "Aino\nAino\n");
}

#[test]
fn scenario_remove_once_leaves_one() {
    let mut list = lava_roster();
    let raid = list
        .reaction_added(1001, member("aino_k", Some("Aino"), 42, false), "2_:1")
        .unwrap();
    list.update_raid(&raid.location, &raid);
    let (raid, res) = list.reaction_removed(1001, None, Some(42), "1_:1").unwrap();
    assert_eq!(res, Ok(()));
    list.update_raid(&raid.location, &raid);
    let got = list.resolve_by_message(1001).unwrap();
    assert_eq!(names(&got), vec!["Aino"]);
}

#[test]
fn scenario_unbound_reaction_changes_nothing() {
    let list = lava_roster();
    assert!(list
        .reaction_added(2002, member("a", Some("Aino"), 42, false), "1_:1")
        .is_none());
    assert!(list.reaction_removed(2002, None, Some(42), "1_:1").is_none());
    let got = list.resolve_by_message(1001).unwrap();
    assert!(got.raiders.is_empty());
}

#[test]
fn scenario_last_create_wins() {
    let mut list = RaidList::new();
    list.create_raid(&s("20:00"), &s("Draugr"), &s("Lava"));
    list.create_raid(&s("21:30"), &s("Draugr"), &s("Lava"));
    list.add_raid_by_message(9, &s("Lava"));
    let got = list.resolve_by_message(9).unwrap();
    assert_eq!(got.time, "21:30");
}

#[test]
fn bot_reactions_are_ignored() {
    let list = lava_roster();
    assert!(list
        .reaction_added(1001, member("bot", None, 1, true), "1_:1")
        .is_none());
    assert!(list.reaction_added(1001, None, "1_:1").is_none());
    assert!(list
        .reaction_removed(1001, member("bot", None, 1, true), Some(1), "1_:1")
        .is_none());
    assert!(list.reaction_removed(1001, None, None, "1_:1").is_none());
}

#[test]
fn removal_reaction_reports_short_fall() {
    let list = lava_roster();
    let (raid, res) = list.reaction_removed(1001, None, Some(42), "3_:1").unwrap();
    assert_eq!(res, Err(ShortFall { removed: 0, requested: 3 }));
    assert!(raid.raiders.is_empty());
}

#[test]
fn store_attendance_operations() {
    let mut list = lava_roster();
    assert!(list.add_attendance(&s("Lava"), Raider::new(member("a", Some("Aino"), 42, false)), 3));
    assert!(!list.add_attendance(&s("Ice"), Raider::new(member("a", None, 42, false)), 1));
    assert_eq!(list.remove_attendance(&s("Lava"), 42, 2), Some(Ok(())));
    assert_eq!(
        list.remove_attendance(&s("Lava"), 42, 2),
        Some(Err(ShortFall { removed: 1, requested: 2 }))
    );
    assert_eq!(list.remove_attendance(&s("Ice"), 42, 1), None);
    assert!(list.resolve_by_message(1001).unwrap().raiders.is_empty());
}

#[test]
fn rebinding_message_moves_it() {
    let mut list = lava_roster();
    list.create_raid(&s("18:00"), &s("Troll"), &s("Ice"));
    list.add_raid_by_message(1001, &s("Ice"));
    assert_eq!(list.resolve_by_message(1001).unwrap().boss_name, "Troll");
}
