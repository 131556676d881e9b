use deck_optimizer::panel::{Poll, StatusPanel};

#[test]
fn new_panel_is_idle_and_blank() {
    assert_eq!(StatusPanel::new(), StatusPanel { output: String::new(), requested: false });
}

#[test]
fn first_click_starts_a_fetch_and_later_clicks_do_not() {
    let mut panel = StatusPanel::new();
    assert!(panel.on_click());
    assert!(panel.requested);
    assert!(!panel.on_click());
    assert!(panel.requested);
    assert_eq!(panel.output, "");
}

#[test]
fn pending_poll_keeps_waiting_and_asks_for_a_repaint() {
    let mut panel = StatusPanel { output: "old".to_string(), requested: true };
    assert!(panel.on_poll(Poll::Pending));
    assert_eq!(panel, StatusPanel { output: "old".to_string(), requested: true });
}

#[test]
fn ready_poll_shows_the_text_and_stops_waiting() {
    let mut panel = StatusPanel { output: "old".to_string(), requested: true };
    assert!(!panel.on_poll(Poll::Ready("{\n}".to_string())));
    assert_eq!(panel, StatusPanel { output: "{\n}".to_string(), requested: false });
    assert!(panel.on_click());
}

#[test]
fn lost_worker_is_reported_and_stops_the_wait() {
    let mut panel = StatusPanel { output: "old".to_string(), requested: true };
    assert!(!panel.on_poll(Poll::Disconnected("receiving on a closed channel".to_string())));
    assert_eq!(
        panel,
        StatusPanel {
            output: "[Error] Channel error: receiving on a closed channel".to_string(),
            requested: false,
        }
    );
}

#[test]
fn idle_panel_ignores_polls() {
    let mut panel = StatusPanel { output: "old".to_string(), requested: false };
    assert!(!panel.on_poll(Poll::Ready("new".to_string())));
    assert!(!panel.on_poll(Poll::Pending));
    assert!(!panel.on_poll(Poll::Disconnected("gone".to_string())));
    assert_eq!(panel, StatusPanel { output: "old".to_string(), requested: false });
}
