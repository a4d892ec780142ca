use ennui::hook::{Grabber, Hook};

fn sword_hook() -> Hook {
    let mut h = Hook(vec![]);
    h.push("sword".to_owned());
    h.push("rusty".to_owned());
    h
}

#[test]
fn mod_handle_test() {
    let h = sword_hook();
    assert_eq!("sword", h);
    assert_eq!("rusty", h);
}

#[test]
fn handle_handle_test() {
    let h = sword_hook();
    assert_eq!("sword", h);
    assert_eq!("rusty", h);
}

#[test]
fn hook_does_not_answer_to_other_names() {
    let h = sword_hook();
    assert!(h != "axe");
    assert!(!h.answers_to("sw"));
}

#[test]
fn grabber_reads_an_index_prefix() {
    let g = Grabber::from_str("2.sword");
    assert_eq!(g.handle, "sword");
    assert_eq!(g.index, 1);
    let g = Grabber::from_str("sword");
    assert_eq!(g.handle, "sword");
    assert_eq!(g.index, 0);
}
