use lemmy_ui_core::collapse::{CollapseStore, CommentRquest};

#[test]
fn load_absent_is_empty() {
    let s = CollapseStore::load(7, None);
    assert!(s.hidden.is_empty());
    assert!(!s.is_collapsed(1));
}

#[test]
fn load_and_toggle() {
    let mut s = CollapseStore::load(7, Some(CommentRquest { post_id: 7, comment_id: vec![3, 5] }));
    assert!(s.is_collapsed(3));
    s.toggle(3);
    assert!(!s.is_collapsed(3));
    assert!(s.is_collapsed(5));
    s.toggle(9);
    assert!(s.is_collapsed(9));
    let r = s.record();
    assert_eq!(r.post_id, 7);
    assert_eq!(r.comment_id, vec![5, 9]);
}

#[test]
fn toggle_twice_restores() {
    let mut s = CollapseStore::load(1, Some(CommentRquest { post_id: 1, comment_id: vec![4] }));
    s.toggle(2);
    s.toggle(2);
    assert_eq!(s.record().comment_id, vec![4]);
}
