use lemmy_ui_core::votes::{down_vote_score, save_toggle, up_vote_score};

#[test]
fn vote_buttons() {
    assert_eq!(up_vote_score(None), 1);
    assert_eq!(up_vote_score(Some(1)), 0);
    assert_eq!(up_vote_score(Some(-1)), 1);
    assert_eq!(down_vote_score(None), -1);
    assert_eq!(down_vote_score(Some(-1)), 0);
    assert_eq!(down_vote_score(Some(1)), -1);
    assert!(save_toggle(false));
    assert!(!save_toggle(true));
}
