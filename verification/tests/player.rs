use ennui::describe::Description;
use ennui::hook::Hook;
use ennui::location::Coord;
use ennui::player::list::PlayerIdList;
use ennui::player::meter::{Meter, MeterKind};
use ennui::player::npc::{YamlPlayer, AI};
use ennui::player::{Player, PlayerStatus, PlayerType};

#[test]
fn player_player_test_uuid() {
    assert_ne!(Player::new().uuid(), 0);
}

#[test]
fn player_test_player_test_uuid() {
    assert_ne!(Player::new().uuid(), 0);
}

#[test]
fn player_test_meter_display() {
    let x = Meter(100, 100);
    assert_eq!(x.to_string(), "[100 / 100]");
    let y = MeterKind::Hit(x);
    assert_eq!(y.to_string(), "HIT: [100 / 100]");
}

#[test]
fn player_test_test_meter_display() {
    let x = Meter(100, 100);
    assert_eq!(x.to_string(), "[100 / 100]");
    let y = MeterKind::Hit(x);
    assert_eq!(y.to_string(), "HIT: [100 / 100]");
}

#[test]
fn test_player_status() {
    println!("{:#?}", PlayerStatus::Asleep as u64);
}

fn bill(ai_type: Option<AI>) -> YamlPlayer {
    let info = Description {
        name: "Bill".to_owned(),
        display: "Bill is here, just minding his own business".to_owned(),
        description: String::new(),
        handle: Hook(vec!["bill".to_owned(), "guy".to_owned()]),
    };
    YamlPlayer { info, ai_type, loc: Coord(0, 0) }
}

#[test]
fn yaml_import_test() {
    let p = bill(Some(AI::Talker(vec!["shut up".to_owned(), "get out".to_owned()])));
    assert_eq!(p.info.name, "Bill");
    assert_eq!(p.info.handle, "bill");
    assert_eq!(p.info.handle, "guy");
    assert!(matches!(p.ai_type, Some(AI::Talker(_))));
    let r = PlayerType::from_yaml(p);
    assert!(matches!(r, PlayerType::Npc(_)));

    let q = bill(None);
    assert_eq!(q.ai_type, None);
    let s = PlayerType::from_yaml(q);
    assert!(matches!(s, PlayerType::Human(_)));
}

#[test]
fn new_player_has_full_gauges() {
    let p = Player::new();
    assert_eq!(p.hp(), 100);
    assert_eq!(p.stats().len(), 3);
    assert_eq!(p.loc(), Coord(0, 0));
}

#[test]
fn hurt_takes_from_hit_points() {
    let mut p = PlayerType::new_with_stream();
    p.hurt(25);
    assert_eq!(p.hp(), 75);
    p.hurt(80);
    assert_eq!(p.hp(), -5);
}

#[test]
fn names_add_handles_in_lower_case() {
    let mut p = PlayerType::new_with_stream();
    p.set_name("Mindy");
    assert_eq!(p.player().info().info.name, "Mindy");
    assert!(p.player().info().info.handle.answers_to("mindy"));
}

#[test]
fn meter_kind_labels() {
    assert_eq!(MeterKind::Mana(Meter(3, 7)).to_string(), "MANA: [3 / 7]");
    assert_eq!(MeterKind::Movement(Meter(-1, 7)).to_string(), "MOVEMENT: [-1 / 7]");
}

#[test]
fn id_list_insert_then_remove() {
    let mut l = PlayerIdList::new();
    assert!(l.insert(3));
    assert!(l.insert(5));
    assert!(!l.insert(3));
    let before = l.to_vec();
    assert!(l.insert(9));
    assert!(l.remove(9));
    assert_eq!(l.to_vec(), before);
    assert!(!l.remove(9));
    assert!(!l.contains(9));
}
