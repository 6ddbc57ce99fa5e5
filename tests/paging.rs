use lemmy_ui_core::paging::{limit_for_width, uses_infinite_scroll, PageCursorState, PageKey};
use lemmy_ui_core::query::{decode_from, decode_limit, decode_prev, encode_from, encode_prev};

fn key(offset: usize, cursor: Option<&str>) -> PageKey {
    PageKey { offset, cursor: cursor.map(|c| c.to_string()) }
}

#[test]
fn from_param_is_json_pair() {
    assert_eq!(encode_from(&key(10, Some("abc"))), Some("[10,\"abc\"]".to_string()));
    assert_eq!(encode_from(&key(20, None)), Some("[20,null]".to_string()));
    assert_eq!(encode_from(&key(0, None)), None);
}

#[test]
fn from_param_round_trip() {
    for k in [key(0, None), key(10, Some("abc")), key(30, None), key(usize::MAX, Some("q\"\\é\n")), key(0, Some(""))] {
        let p = encode_from(&k);
        assert_eq!(decode_from(p.as_deref()), k);
    }
}

#[test]
fn from_param_unreadable_is_first_page() {
    assert_eq!(decode_from(None), key(0, None));
    assert_eq!(decode_from(Some("")), key(0, None));
    assert_eq!(decode_from(Some("null")), key(0, None));
    assert_eq!(decode_from(Some("[1,2]")), key(0, None));
    assert_eq!(decode_from(Some("[40,\"xyz\"]")), key(40, Some("xyz")));
}

#[test]
fn prev_param_round_trip() {
    let stack = vec![key(0, None), key(10, Some("a")), key(20, Some("b"))];
    let p = encode_prev(&stack);
    assert_eq!(p.as_deref(), Some("[[0,null],[10,\"a\"],[20,\"b\"]]"));
    assert_eq!(decode_prev(p.as_deref()), stack);
    assert_eq!(encode_prev(&vec![]), None);
    assert_eq!(decode_prev(None), vec![]);
    assert_eq!(decode_prev(Some("garbage")), vec![]);
}

#[test]
fn limit_param() {
    assert_eq!(decode_limit(Some("20")), 20);
    assert_eq!(decode_limit(Some("+7")), 7);
    assert_eq!(decode_limit(Some("abc")), 10);
    assert_eq!(decode_limit(Some("-1")), 10);
    assert_eq!(decode_limit(Some("")), 10);
    assert_eq!(decode_limit(Some("99999999999999999999999")), 10);
    assert_eq!(decode_limit(None), 10);
}

#[test]
fn next_then_previous_restores_initial() {
    let start = PageCursorState::initial();
    let mut s = PageCursorState::initial();
    for (i, c) in ["c1", "c2", "c3"].iter().enumerate() {
        s = s.next(10, Some(c.to_string()));
        assert_eq!(s.current.offset, 10 * (i + 1));
        assert_eq!(s.prev.len(), i + 1);
    }
    assert_eq!(s.current, key(30, Some("c3")));
    assert!(s.can_go_back());
    for i in (0..3).rev() {
        s = s.previous();
        assert_eq!(s.current.offset, 10 * i);
    }
    assert_eq!(s.current, start.current);
    assert_eq!(s.prev, start.prev);
    assert!(!s.can_go_back());
}

#[test]
fn previous_on_empty_stack_is_first_page() {
    let s = PageCursorState { current: key(50, Some("z")), prev: vec![] };
    let p = s.previous();
    assert_eq!(p.current, key(0, None));
    assert!(p.prev.is_empty());
}

#[test]
fn query_round_trip_of_state() {
    let s = PageCursorState::initial().next(10, Some("a".into())).next(10, Some("b".into()));
    let q = s.to_query();
    assert_eq!(q.from.as_deref(), Some("[20,\"b\"]"));
    assert_eq!(q.prev.as_deref(), Some("[[0,null],[10,\"a\"]]"));
    let back = PageCursorState::from_query(q.from.as_deref(), q.prev.as_deref());
    assert_eq!(back.current, s.current);
    assert_eq!(back.prev, s.prev);
    let q0 = PageCursorState::initial().to_query();
    assert!(q0.from.is_none() && q0.prev.is_none());
}

#[test]
fn forward_needs_cursor_and_idle() {
    assert!(PageCursorState::can_go_forward(&Some("x".into()), false));
    assert!(!PageCursorState::can_go_forward(&Some("x".into()), true));
    assert!(!PageCursorState::can_go_forward(&None, false));
}

#[test]
fn width_limits() {
    assert_eq!(limit_for_width(2560), Some(40));
    assert_eq!(limit_for_width(2559), Some(30));
    assert_eq!(limit_for_width(1920), Some(30));
    assert_eq!(limit_for_width(1536), Some(20));
    assert_eq!(limit_for_width(1535), None);
    assert!(uses_infinite_scroll(639));
    assert!(!uses_infinite_scroll(640));
}
