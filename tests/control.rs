use toast::control::{frame_interval_ms, handle_key, initial_cursor, normalize_url, viewport_point, InputAction, Key, TARGET_FPS};
use toast::overlay::{overlay_cursor, LOWER_HALF_BLOCK};
use toast::queue::{FrameQueue, CAPTURE_QUEUE_CAPACITY, FRAME_QUEUE_CAPACITY};
use toast::session::App;
use toast::types::{AnsiColor, CursorPosition, TerminalFrame};

#[test]
fn frame_interval_is_integer_division() {
    assert_eq!(frame_interval_ms(TARGET_FPS), 66);
    assert_eq!(frame_interval_ms(1), 1000);
}

#[test]
fn arrows_move_and_clamp() {
    let mut pos = initial_cursor(80, 24);
    assert_eq!(pos, CursorPosition { x: 40, y: 12 });
    let mut corner = CursorPosition { x: 0, y: 0 };
    assert_eq!(handle_key(&mut corner, Key::Up, 80, 24), InputAction::Continue);
    assert_eq!(handle_key(&mut corner, Key::Left, 80, 24), InputAction::Continue);
    assert_eq!(corner, CursorPosition { x: 0, y: 0 });
    let mut far = CursorPosition { x: 79, y: 23 };
    handle_key(&mut far, Key::Right, 80, 24);
    handle_key(&mut far, Key::Down, 80, 24);
    assert_eq!(far, CursorPosition { x: 79, y: 23 });
    handle_key(&mut pos, Key::Right, 80, 24);
    handle_key(&mut pos, Key::Down, 80, 24);
    assert_eq!(pos, CursorPosition { x: 41, y: 13 });
}

#[test]
fn enter_clicks_and_ctrl_c_stops() {
    let mut pos = CursorPosition { x: 5, y: 7 };
    assert_eq!(handle_key(&mut pos, Key::Enter, 80, 24), InputAction::Click(5, 7));
    assert_eq!(handle_key(&mut pos, Key::CtrlC, 80, 24), InputAction::Shutdown);
    assert_eq!(handle_key(&mut pos, Key::Other, 80, 24), InputAction::Continue);
    assert_eq!(pos, CursorPosition { x: 5, y: 7 });
}

#[test]
fn click_maps_to_viewport() {
    assert_eq!(viewport_point(40, 12, 80, 24, 1920, 1080), (960, 540));
    assert_eq!(viewport_point(0, 0, 80, 24, 1920, 1080), (0, 0));
    assert_eq!(viewport_point(79, 23, 80, 24, 1920, 1080), (1896, 1035));
}

#[test]
fn url_gets_https_unless_it_has_a_scheme() {
    assert_eq!(normalize_url(b"example.com"), b"https://example.com".to_vec());
    assert_eq!(normalize_url(b"http://a.b"), b"http://a.b".to_vec());
    assert_eq!(normalize_url(b"https://a.b"), b"https://a.b".to_vec());
    assert_eq!(normalize_url(b""), b"https://".to_vec());
    assert_eq!(normalize_url(b"http:/x"), b"https://http:/x".to_vec());
}

#[test]
fn app_keeps_its_url() {
    let app = App::new("https://example.com".to_string());
    assert_eq!(app.url(), "https://example.com");
}

#[test]
fn cursor_overlay_draws_arrow_and_clips() {
    let mut frame = TerminalFrame::new(8, 6);
    overlay_cursor(&mut frame, CursorPosition { x: 1, y: 0 });
    let painted: Vec<(usize, usize, char)> = (0..6)
        .flat_map(|y| (0..8).map(move |x| (x, y)))
        .filter_map(|(x, y)| {
            let c = frame.get(x, y).unwrap();
            if c.character != ' ' {
                assert_eq!((c.foreground, c.background), (AnsiColor(16), AnsiColor(16)));
                Some((x, y, c.character))
            } else {
                None
            }
        })
        .collect();
    assert_eq!(painted.len(), 16);
    assert!(painted.contains(&(2, 0, LOWER_HALF_BLOCK)));
    assert!(painted.contains(&(5, 4, '\u{2580}')));
    assert!(painted.contains(&(1, 3, '\u{2580}')));
    assert!(!painted.contains(&(2, 3, '\u{2588}')));

    let mut small = TerminalFrame::new(3, 2);
    overlay_cursor(&mut small, CursorPosition { x: 1, y: 1 });
    let count = small.cells.iter().filter(|c| c.character != ' ').count();
    assert_eq!(count, 2);
}

#[test]
fn capture_queue_drops_when_full() {
    // Paint stalls for 500 ms while capture ticks every 66 ms: eight
    // screenshots arrive and nothing is taken out.
    let mut queue: FrameQueue<u32> = FrameQueue::new(CAPTURE_QUEUE_CAPACITY);
    let mut dropped = 0;
    for tick in 0..8u32 {
        if queue.try_push(tick).is_err() {
            dropped += 1;
        }
        assert!(queue.len() <= CAPTURE_QUEUE_CAPACITY);
    }
    assert_eq!(queue.len(), 2);
    assert!(dropped >= 6);
    assert_eq!(queue.pop(), Some(0));
    assert_eq!(queue.pop(), Some(1));
    assert_eq!(queue.pop(), None);
}

#[test]
fn frame_queue_holds_one() {
    let mut queue: FrameQueue<&str> = FrameQueue::new(FRAME_QUEUE_CAPACITY);
    assert!(queue.try_push("a").is_ok());
    assert_eq!(queue.try_push("b"), Err("b"));
    assert_eq!(queue.len(), 1);
    assert_eq!(queue.pop(), Some("a"));
    assert!(queue.try_push("c").is_ok());
}
