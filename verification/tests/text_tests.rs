use trilogy_save::text::{eq_ignore_ascii_case, push_tree_node, Theme, TreeNode};

#[test]
fn tree_node_splits_ident_and_label() {
    let node = TreeNode::new("Label##ident");
    assert_eq!(node.ident, "ident");
    assert_eq!(node.label, Some("Label"));
}

#[test]
fn tree_node_without_marker_has_no_label() {
    let node = TreeNode::new("plain");
    assert_eq!(node.ident, "plain");
    assert_eq!(node.label, None);
}

#[test]
fn tree_node_takes_the_last_two_pieces() {
    let node = TreeNode::new("a##b##c");
    assert_eq!(node.ident, "c");
    assert_eq!(node.label, Some("b"));
}

#[test]
fn pushed_tree_node_label_stops_at_first_marker() {
    assert_eq!(push_tree_node("Name##id##more"), "Name");
    assert_eq!(push_tree_node("Name"), "Name");
    assert_eq!(push_tree_node("##hidden"), "");
}

#[test]
fn theme_names() {
    assert_eq!(Theme::MassEffect1.deref(), "mass-effect-1");
    assert_eq!(Theme::MassEffect2.deref(), "mass-effect-2");
    assert_eq!(Theme::MassEffect3.deref(), "mass-effect-3");
}

#[test]
fn ascii_case_is_ignored() {
    assert!(eq_ignore_ascii_case("SFXGame.SFXPawn_PlayerAdept", "sfxgame.sfxpawn_playeradept"));
    assert!(!eq_ignore_ascii_case("Adept", "Adepts"));
    assert!(!eq_ignore_ascii_case("Adept", "Vdept"));
}
