use ennui::db::{help_text, recipe_key, recipe_to_item, DBError, ItemRow};
use ennui::error::EnnuiError;
use ennui::fight::{Fight, FightMod, Starter};
use ennui::game::util::random_insult;
use ennui::game::Game;
use ennui::hook::Hook;
use ennui::item::{DescriptionWithQualities, Item, YamlItem, YamlItemList};
use ennui::location::Coord;
use ennui::map::{Room, Space};
use ennui::obstacle::door::DoorList;
use ennui::player::list::PlayerIdList;
use ennui::player::npc::{draw_npc_line, npc_interval, npc_line, YamlPlayer, AI};
use ennui::player::{PlayerType, Uuid};
use ennui::soul::recipe::Recipe;
use ennui::text::message::Broadcast;
use ennui::attribute::Quality;
use ennui::describe::{Describe, Description};
use ennui::location::Locate;

fn room_at(name: &str, loc: Coord) -> Room {
    Room::from_parts(
        DescriptionWithQualities::new(name, Some("a plain room"), Hook(vec![])),
        loc,
        PlayerIdList::new(),
        None,
        DoorList::new(),
    )
}

fn two_rooms() -> Game {
    Game::new(vec![room_at("south room", Coord(0, 0)), room_at("north room", Coord(0, 1))])
}

fn join(g: &mut Game, name: &str) -> u128 {
    let p = PlayerType::new_with_stream();
    let id = p.uuid();
    g.add_player(p);
    g.set_player_name(id, name).unwrap();
    id
}

fn texts_for(out: &[(u128, String)], id: u128) -> Vec<String> {
    out.iter().filter(|(i, _)| *i == id).map(|(_, t)| t.clone()).collect()
}

#[test]
fn game_test_interpreter() {
    let mut g = Game::new(vec![Room::new("yo", None)]);
    let p = PlayerType::new_with_stream();
    let uuid = p.uuid();
    g.add_player(p);
    assert!(g.interpret(uuid, "look").is_ok());
}

#[test]
fn game_test_display_room() {
    let mut g = Game::new(vec![Room::new("the room", None)]);
    let a = join(&mut g, "lol");
    join(&mut g, "billy");
    join(&mut g, "mindy");
    let shown = g.describe_room(a).unwrap();
    println!("{}", shown);
    assert!(shown.contains("the room"));
}

#[test]
fn test_message_1() {
    let mut g = Game::new(vec![Room::new("", None)]);
    let s = "poo butts poo";
    let n = 8_u128;
    g.send(&n, &s);
    assert!(g.take_outbox().is_empty());
}

#[test]
fn test_message_2() {
    let mut g = Game::new(vec![Room::new("", None)]);
    let s = "poo butts poo".to_owned();
    let n = 8_u128;
    g.send(&n, &s);
    assert!(g.take_outbox().is_empty());
}

#[test]
fn test_message_3() {
    let mut g = Game::new(vec![Room::new("", None)]);
    let s = "poo butts poo".to_owned();
    let n = 8_u128;
    let room = g.get_room(Coord(0, 0)).unwrap();
    let _audience = ennui::text::message::Audience(n, room.players().except(n));
    g.send(&n, &s);
    assert!(g.take_outbox().is_empty());
}

#[test]
fn sent_text_reaches_a_player() {
    let mut g = two_rooms();
    let a = join(&mut g, "Al");
    let s = "hello there".to_owned();
    g.send(&a, &s);
    let out = g.take_outbox();
    assert_eq!(texts_for(&out, a), vec!["hello there".to_owned()]);
    assert!(g.take_outbox().is_empty());
}

#[test]
fn walking_north_and_back() {
    let mut g = two_rooms();
    let a = join(&mut g, "Al");
    assert!(g.interpret(a, "north").is_ok());
    assert_eq!(g.loc_of(a).unwrap(), Coord(0, 1));
    assert!(g.interpret(a, "s").is_ok());
    assert_eq!(g.loc_of(a).unwrap(), Coord(0, 0));
}

#[test]
fn unknown_words_get_an_insult() {
    assert_eq!(random_insult(), "that's ... uncommon");
    let mut g = two_rooms();
    let a = join(&mut g, "Al");
    let (env, msg) = g.interpret(a, "xyzzy").unwrap();
    assert_eq!(env.id, Some(a));
    assert_eq!(msg.s, "\nthat's ... uncommon\n\n > ");
}

#[test]
fn commands_without_handler_and_quit() {
    let mut g = two_rooms();
    let a = join(&mut g, "Al");
    assert!(matches!(g.interpret(a, "ouch"), Err(EnnuiError::NoneFound)));
    let (_, msg) = g.interpret(a, "").unwrap();
    assert_eq!(msg.s, "\nthat's ... uncommon\n\n > ");
    assert!(matches!(g.interpret(a, "quit"), Err(EnnuiError::Quit)));
    assert!(matches!(g.interpret(12345, "look"), Err(EnnuiError::Fatal(_))));
}

#[test]
fn lines_with_all_forms_are_left_alone() {
    let mut g = two_rooms();
    let a = join(&mut g, "Al");
    assert!(g.run_line(a, "take all.sword").is_none());
    assert!(g.run_line(a, "say all.sword").is_some());
}

#[test]
fn say_reaches_the_room() {
    let mut g = two_rooms();
    let a = join(&mut g, "Al");
    let b = join(&mut g, "Bob");
    let (env, msg) = g.interpret(a, "say Hello World").unwrap();
    assert_eq!(env.id, Some(a));
    assert_eq!(env.others, vec![b]);
    assert_eq!(msg.s, "\nyou say 'hello world'\n\n > ");
    assert_eq!(msg.oth, Some("\nAl says 'hello world'\n\n > ".to_owned()));
}

#[test]
fn joining_and_leaving_are_told() {
    let mut g = two_rooms();
    let a = join(&mut g, "Al");
    let b = join(&mut g, "Bob");
    g.announce_player(b).unwrap();
    let out = g.take_outbox();
    assert_eq!(texts_for(&out, a).len(), 1);
    assert!(texts_for(&out, a)[0].contains("Bob has joined the game."));
    assert!(texts_for(&out, b).is_empty());
    let gone = g.remove_player(b).unwrap();
    assert_eq!(gone.uuid(), b);
    assert!(g.loc_of(b).is_err());
    let out = g.take_outbox();
    assert!(texts_for(&out, a).iter().any(|t| t.contains("Bob has left the game")));
    assert!(g.remove_player(b).is_none());
    assert!(g.announce_player(b).is_err());
}

#[test]
fn a_fight_hurts_the_striker_until_it_dies() {
    let mut g = two_rooms();
    let a = join(&mut g, "Al");
    let b = join(&mut g, "Bob");
    assert!(matches!(g.interpret(a, "hit bob"), Err(EnnuiError::Fatal(_))));
    g.set_fight_sender();
    let (_, msg) = g.interpret(a, "hit bob").unwrap();
    assert_eq!(msg.s, "\noh no\n\n > ");
    let mut fights = g.take_fights();
    assert_eq!(fights.len(), 1);
    let mut f = g.begin_fight(fights.remove(0));
    assert_eq!(f.aggressor(), a);
    assert_eq!(f.defender(), b);
    g.take_outbox();
    assert!(g.can_strike(a));
    g.set_player_name(b, "Robert").unwrap();
    g.fight_turn(&mut f, Starter::Aggressor);
    assert_eq!(g.get_player(a).unwrap().hp(), 75);
    assert_eq!(g.get_player(b).unwrap().hp(), 100);
    let out = g.take_outbox();
    assert_eq!(texts_for(&out, a), vec!["\n\n\u{1b}[33myou hit Bob\u{1b}[37m".to_owned()]);
    assert_eq!(texts_for(&out, b), vec!["\n\n\u{1b}[31mAl hits you\u{1b}[37m".to_owned()]);
    assert!(!f.status().ended);
    g.fight_turn(&mut f, Starter::Aggressor);
    g.fight_turn(&mut f, Starter::Aggressor);
    g.fight_turn(&mut f, Starter::Aggressor);
    assert_eq!(g.get_player(a).unwrap().hp(), 0);
    assert!(f.status().ended);
    g.fight_turn(&mut f, Starter::Defender);
    assert_eq!(g.get_player(b).unwrap().hp(), 100);
    let (_, msg) = g.interpret(a, "north").unwrap();
    assert_eq!(msg.s, "\noh boy. you can't move. you're dead.\n\n > ");
}

#[test]
fn fighters_apart_end_the_fight() {
    let mut g = two_rooms();
    let a = join(&mut g, "Al");
    let b = join(&mut g, "Bob");
    g.set_fight_sender();
    g.interpret(a, "hit bob").unwrap();
    let request = g.take_fights().remove(0);
    let mut f = g.begin_fight(request);
    g.interpret(b, "north").unwrap();
    // the aggressor still sees the defender where it last looked
    g.fight_turn(&mut f, Starter::Aggressor);
    assert!(!f.status().ended);
    assert_eq!(g.get_player(a).unwrap().hp(), 75);
    // the defender looks again and is elsewhere: the fight is over
    g.fight_turn(&mut f, Starter::Defender);
    assert!(f.status().ended);
    assert_eq!(g.get_player(b).unwrap().hp(), 100);
    g.fight_turn(&mut f, Starter::Aggressor);
    assert_eq!(g.get_player(a).unwrap().hp(), 75);
}

#[test]
fn onlookers_can_leave_a_fight() {
    let mut g = two_rooms();
    let a = join(&mut g, "Al");
    join(&mut g, "Bob");
    let c = join(&mut g, "Cy");
    g.set_fight_sender();
    g.interpret(a, "hit bob").unwrap();
    let request = g.take_fights().remove(0);
    let mut f = g.begin_fight(request);
    assert_eq!(f.audience(), vec![c]);
    assert!(f.send_message(FightMod::Leave(c)).is_ok());
    assert!(f.audience().is_empty());
    assert!(matches!(
        f.send_message(FightMod::Leave(c)),
        Err(EnnuiError::Simple(ennui::error::Simple::PlayerNotFound))
    ));
    f.end();
    assert!(f.status().ended);
}

#[test]
fn recipe_items_come_from_rows() {
    let r = Recipe { combat_req: 1, crafting_req: 2, exploration_req: 3 };
    assert_eq!(recipe_key(&r), (2, 3, 1));
    let row = ItemRow {
        name: "spoon".to_owned(),
        display: "a spoon lies here".to_owned(),
        description: "shiny".to_owned(),
        hook: vec!["spoon".to_owned()],
        attributes: vec![5, 3],
    };
    match recipe_to_item(Some(row)) {
        Some(Item::Holdable(d)) => {
            assert_eq!(d.info.name, "spoon");
            assert_eq!(d.attr, vec![Quality::Holdable, Quality::Scenery]);
        },
        _ => panic!("expected a holdable item"),
    }
    let bad = ItemRow {
        name: "x".to_owned(),
        display: String::new(),
        description: String::new(),
        hook: vec![],
        attributes: vec![9],
    };
    assert!(recipe_to_item(Some(bad)).is_none());
    assert!(recipe_to_item(None).is_none());
}

#[test]
fn help_texts_join_title_and_text() {
    assert_eq!(help_text(Some(("LOOK".to_owned(), "look around".to_owned()))).unwrap(), "LOOK\n\nlook around");
    assert!(matches!(help_text(None), Err(DBError::NoRows)));
}

#[test]
fn a_corpse_holds_what_the_player_had() {
    let mut p = PlayerType::new_with_stream();
    p.set_name("Al");
    match Item::from_player_type(p) {
        Item::Container(l) => {
            assert_eq!(l.info().name, "Al");
            assert_eq!(l.info().display, "The corpse of Al lies here, decomposing");
            assert_eq!(l.info().description, "Where once stood Al, now lies a rotting corpse");
            assert!(l.info().handle.answers_to("corpse"));
            assert_eq!(l.len(), 0);
        },
        _ => panic!("expected a container"),
    }
}

#[test]
fn characters_pick_their_lines() {
    let talker = AI::Talker(vec!["hello".to_owned(), "bye".to_owned()]);
    assert_eq!(npc_line(&talker, 1), Some("say bye".to_owned()));
    assert_eq!(npc_line(&AI::Walker, 0), Some("n".to_owned()));
    assert_eq!(npc_line(&AI::Walker, 2), Some("e".to_owned()));
    assert_eq!(npc_line(&AI::Walker, 7), Some("w".to_owned()));
    assert_eq!(npc_line(&AI::Static, 0), None);
    let drawn = draw_npc_line(&talker).unwrap();
    assert!(drawn == "say hello" || drawn == "say bye");
    let t = npc_interval();
    assert!(20 <= t && t < 30);
}

#[test]
fn characters_act_in_the_game() {
    let mut g = two_rooms();
    let a = join(&mut g, "Al");
    let info = Description {
        name: "Driver".to_owned(),
        display: String::new(),
        description: String::new(),
        handle: Hook(vec!["driver".to_owned()]),
    };
    let npc = PlayerType::from_yaml(YamlPlayer { info, ai_type: Some(AI::Walker), loc: Coord(0, 0) });
    let d = npc.uuid();
    g.add_player(npc);
    g.take_outbox();
    assert!(matches!(g.act_for(d, "say hi"), Some(Ok(()))));
    let out = g.take_outbox();
    assert!(texts_for(&out, a).iter().any(|t| t.contains("Driver says 'hi'")));
    assert!(matches!(g.act_for(d, "n"), Some(Ok(()))));
    assert_eq!(g.loc_of(d).unwrap(), Coord(0, 1));
}

fn room_with_sword() -> Room {
    let sword = DescriptionWithQualities::new("sword", Some("sharp"), Hook(vec!["sword".to_owned()]));
    let list = YamlItemList {
        inner: vec![YamlItem::Holdable(sword)],
        info: DescriptionWithQualities::new("", None, Hook(vec![])),
    };
    Room::from_parts(
        DescriptionWithQualities::new("armory", Some("racks of arms"), Hook(vec![])),
        Coord(0, 0),
        PlayerIdList::new(),
        Some(list),
        DoorList::new(),
    )
}

#[test]
fn take_and_drop_move_items() {
    let mut g = Game::new(vec![room_with_sword()]);
    let a = join(&mut g, "Al");
    assert_eq!(g.get_room(Coord(0, 0)).unwrap().items().len(), 1);
    let (_, msg) = g.interpret(a, "take sword").unwrap();
    assert_eq!(msg.s, "\nyou take the sword\n\n > ");
    assert_eq!(g.get_room(Coord(0, 0)).unwrap().items().len(), 0);
    assert!(g.list_inventory(a).unwrap().contains("a sword"));
    let (_, msg) = g.interpret(a, "drop sword").unwrap();
    assert_eq!(msg.s, "\nyou drop the sword\n\n > ");
    assert_eq!(g.get_room(Coord(0, 0)).unwrap().items().len(), 1);
    assert_eq!(g.list_inventory(a).unwrap(), "you are holding:");
}

#[test]
fn leaving_drops_what_was_held() {
    let mut g = Game::new(vec![room_with_sword()]);
    let a = join(&mut g, "Al");
    let b = join(&mut g, "Bob");
    g.interpret(b, "take sword").unwrap();
    g.take_outbox();
    let gone = g.remove_player(b).unwrap();
    assert_eq!(gone.player().items().len(), 0);
    assert_eq!(g.get_room(Coord(0, 0)).unwrap().items().len(), 1);
    let out = g.take_outbox();
    assert!(texts_for(&out, a).iter().any(|t| t.contains("Bob drops a sword")));
}

#[test]
fn onlookers_who_walk_away_are_listed() {
    let mut g = two_rooms();
    let a = join(&mut g, "Al");
    join(&mut g, "Bob");
    let c = join(&mut g, "Cy");
    g.set_fight_sender();
    g.interpret(a, "hit bob").unwrap();
    assert!(g.take_departures().is_empty());
    g.interpret(c, "north").unwrap();
    assert_eq!(g.take_departures(), vec![c]);
    g.interpret(c, "south").unwrap();
    assert!(g.take_departures().is_empty());
}

#[test]
fn giving_moves_an_item_to_another_player() {
    let mut g = Game::new(vec![room_with_sword()]);
    let a = join(&mut g, "Al");
    let b = join(&mut g, "Bob");
    g.interpret(a, "take sword").unwrap();
    let (_, msg) = g.interpret(a, "give sword bob").unwrap();
    assert_eq!(msg.s, "\nyou give bob a sword\n\n > ");
    assert_eq!(g.list_inventory(a).unwrap(), "you are holding:");
    assert!(g.list_inventory(b).unwrap().contains("a sword"));
}

#[test]
fn lines_keep_players_and_rooms() {
    let mut g = two_rooms();
    let a = join(&mut g, "Al");
    let b = join(&mut g, "Bob");
    for line in ["north", "look", "say hi", "take nothing", "south", "sleep", "wake", "xyzzy", "quit"] {
        let _ = g.interpret(a, line);
        assert!(g.loc_of(a).is_ok());
        assert!(g.loc_of(b).is_ok());
        assert!(g.get_room(Coord(0, 0)).is_ok());
        assert!(g.get_room(Coord(0, 1)).is_ok());
    }
}

#[test]
fn a_fight_run_stops_changing_once_over() {
    let mut g = two_rooms();
    let a = join(&mut g, "Al");
    let b = join(&mut g, "Bob");
    g.set_fight_sender();
    g.interpret(a, "hit bob").unwrap();
    let request = g.take_fights().remove(0);
    let mut f = g.begin_fight(request);
    let starters = [Starter::Aggressor, Starter::Defender, Starter::Aggressor, Starter::Defender];
    let mut hps = Vec::new();
    for s in starters.iter() {
        g.fight_turn(&mut f, *s);
        hps.push((g.get_player(a).unwrap().hp(), g.get_player(b).unwrap().hp()));
    }
    assert_eq!(hps, vec![(75, 100), (75, 75), (50, 75), (50, 50)]);
    assert!(!f.status().ended);
    assert!(g.blow_would_land(&f, Starter::Aggressor));
    g.interpret(b, "north").unwrap();
    assert!(!g.blow_would_land(&f, Starter::Defender));
    g.fight_turn(&mut f, Starter::Defender);
    assert!(f.status().ended);
    assert!(!g.blow_would_land(&f, Starter::Aggressor));
    g.take_outbox();
    for s in starters.iter() {
        g.fight_turn(&mut f, *s);
    }
    assert!(f.status().ended);
    assert_eq!(g.get_player(a).unwrap().hp(), 50);
    assert_eq!(g.get_player(b).unwrap().hp(), 50);
    assert!(g.take_outbox().is_empty());
    assert_eq!(f.aggressor(), a);
    assert_eq!(f.defender(), b);
}

#[test]
fn character_turns_type_only_allowed_lines() {
    let mut g = two_rooms();
    let a = join(&mut g, "Al");
    let info = Description {
        name: "Parrot".to_owned(),
        display: String::new(),
        description: String::new(),
        handle: Hook(vec!["parrot".to_owned()]),
    };
    let talker = AI::Talker(vec!["hello".to_owned(), "bye".to_owned()]);
    let said = AI::Talker(vec!["hello".to_owned(), "bye".to_owned()]);
    let npc = PlayerType::from_yaml(YamlPlayer { info, ai_type: Some(said), loc: Coord(0, 0) });
    let d = npc.uuid();
    g.add_player(npc);
    g.take_outbox();
    for _ in 0..5 {
        assert!(matches!(g.npc_turn(d, &talker), Some(Ok(()))));
        let out = g.take_outbox();
        let heard = texts_for(&out, a);
        assert_eq!(heard.len(), 1);
        assert!(heard[0].contains("Parrot says 'hello'") || heard[0].contains("Parrot says 'bye'"));
    }
    assert!(g.npc_turn(d, &AI::Static).is_none());
    assert!(g.take_outbox().is_empty());
    assert!(matches!(g.npc_turn(d, &AI::Walker), Some(Ok(()))));
    g.remove_player(d);
    assert!(g.npc_turn(d, &talker).is_none());
}

#[test]
fn changes_through_players_mut_reach_the_room() {
    let mut r = room_at("hall", Coord(0, 0));
    assert!(r.players_mut().insert(7));
    assert!(r.players().contains(7));
    assert!(!r.players_mut().insert(7));
    assert!(r.players().contains(7));
    assert!(r.players_mut().remove(7));
    assert!(!r.players().contains(7));
}

#[test]
fn renaming_keeps_the_rest_of_the_player() {
    let mut g = two_rooms();
    let a = join(&mut g, "Al");
    let before = g.get_player(a).unwrap().loc();
    g.set_player_name(a, "Alfred").unwrap();
    let p = g.get_player(a).unwrap();
    assert_eq!(p.name(), "Alfred");
    assert_eq!(p.display(), "Alfred");
    assert_eq!(p.loc(), before);
    assert!(matches!(p, PlayerType::Human(_)));
    assert_eq!(p.hp(), 100);
    assert!(g.set_player_name(a + 1, "Nobody").is_err());
}
