use ennui::soul::recipe::Recipe;
use ennui::soul::SoulKind;

#[test]
fn test_try_from() {
    let x = "1.crafting 2.combat 3.exploration";

    let mut xv = vec![];
    let xz = x.split_whitespace();
    xv.extend(xz);
    let r: Recipe = Recipe::parse_words(&xv[..]).unwrap();
    assert_eq!(r.crafting_req, 1);
    assert_eq!(r.combat_req, 2);
    assert_eq!(r.exploration_req, 3);

    // Should work out of order
    let mut xv = vec![];
    let x = "2.combat 1.crafting  3.exploration";
    let xz = x.split_whitespace();
    xv.extend(xz);
    let r: Recipe = Recipe::parse_words(&xv[..]).unwrap();
    assert_eq!(r.crafting_req, 1);
    assert_eq!(r.combat_req, 2);
    assert_eq!(r.exploration_req, 3);

    let mut xv = vec![];
    let x = "0.combat 2.crafting 10.exploration";
    let xz = x.split_whitespace();
    xv.extend(xz);
    let r: Recipe = Recipe::parse_words(&xv[..]).unwrap();
    assert_eq!(r.crafting_req, 2);
    assert_eq!(r.combat_req, 0);
    assert_eq!(r.exploration_req, 10);
}

#[test]
fn recipe_with_wrong_word_count_is_refused() {
    assert!(Recipe::parse_words(&["1.crafting", "2.combat"]).is_err());
    assert!(Recipe::parse_words(&["1.crafting", "2.combat", "3.bogus"]).is_err());
    assert!(Recipe::parse_words(&["crafting", "2.combat", "3.exploration"]).is_err());
}

#[test]
fn stored_soul_numbers_read_back() {
    assert_eq!(SoulKind::from_sql_bytes(&[0, 0, 0, 2]), Some(SoulKind::Crafting));
    assert_eq!(SoulKind::from_sql_bytes(&[0, 0, 0, 0]), Some(SoulKind::Combat));
    assert_eq!(SoulKind::from_sql_bytes(&[]), Some(SoulKind::Combat));
    assert_eq!(SoulKind::from_sql_bytes(&[1, 0, 0, 0, 3]), Some(SoulKind::Exploration));
    assert_eq!(SoulKind::from_sql_bytes(&[0, 0, 1, 3]), None);
    assert_eq!(SoulKind::from_sql_bytes(&[0, 0, 0, 9]), None);
    assert_eq!(SoulKind::Crafting.code(), 2);
}
