use wayper::schedule::{DrawSourceEvent, OutputRepr};

fn output_with(images: &[&str]) -> OutputRepr {
    let list: Vec<String> = images.iter().map(|s| s.to_string()).collect();
    OutputRepr::new("eDP-1".to_string(), None, list, 0)
}

#[test]
fn circular_advance_returns_to_start() {
    let mut o = output_with(&["a", "b", "c", "d"]);
    o.first_configure = false;
    let n = o.img_list.len();
    let mut seen = Vec::new();
    for _ in 0..n {
        seen.push(o.next());
    }
    assert_eq!(o.index, 0);
    assert_eq!(seen, vec!["b", "c", "d", "a"]);
}

#[test]
fn peek_next_does_not_move_cursor() {
    let mut o = output_with(&["a", "b", "c"]);
    o.first_configure = false;
    o.index = 1;
    assert_eq!(o.peek_next_img(), "c");
    assert_eq!(o.peek_next_img(), "c");
    assert_eq!(o.index, 1);
    o.index = 2;
    assert_eq!(o.peek_next_img(), "a");
    assert_eq!(o.index, 2);
}

#[test]
fn first_render_uses_first_image() {
    let mut o = output_with(&["a", "b", "c"]);
    assert!(o.first_configure);
    assert_eq!(o.current_img(), Some("a".to_string()));
    o.index = 2;
    assert_eq!(o.current_img(), Some("a".to_string()));
    assert_eq!(o.peek_next_img(), "a");
    assert_eq!(o.next(), "a");
    assert_eq!(o.index, 0);
}

#[test]
fn previous_image_wraps() {
    let mut o = output_with(&["a", "b", "c"]);
    assert_eq!(o.previous_img(), None);
    o.first_configure = false;
    o.index = 0;
    assert_eq!(o.previous_img(), Some("c".to_string()));
    o.index = 1;
    assert_eq!(o.previous_img(), Some("a".to_string()));
    o.index = 2;
    assert_eq!(o.previous_img(), Some("b".to_string()));
}

#[test]
fn empty_list_has_no_current_or_previous() {
    let mut o = output_with(&[]);
    assert_eq!(o.current_img(), None);
    o.first_configure = false;
    assert_eq!(o.previous_img(), None);
}

#[test]
fn toggle_flips_visibility() {
    let mut o = output_with(&["a"]);
    assert!(o.visible);
    o.toggle_visible();
    assert!(!o.visible);
    o.toggle_visible();
    assert!(o.visible);
}

#[test]
fn timer_deadline_counts_from_previous_deadline() {
    let timer = DrawSourceEvent::TimerTrigger(10_000);
    assert_eq!(timer.get_last_deadline(12_345), 10_000);
    assert_eq!(timer.next_deadline(12_345, 5_000), 15_000);
    let ping = DrawSourceEvent::PingTrigger;
    assert_eq!(ping.get_last_deadline(12_345), 12_345);
    assert_eq!(ping.next_deadline(12_345, 5_000), 17_345);
    assert_eq!(DrawSourceEvent::TimerTrigger(u64::MAX - 1).next_deadline(0, 5), u64::MAX);
}
