use vstd::prelude::*;
use crate::types::CursorPosition;

verus! {

/// Frames captured per second.
pub const TARGET_FPS: u64 = 15;

/// Browser viewport width, in pixels.
pub const VIEWPORT_WIDTH: u32 = 1920;

/// Browser viewport height, in pixels.
pub const VIEWPORT_HEIGHT: u32 = 1080;

/// Room for clicks waiting to reach the browser.
pub const CLICK_QUEUE_CAPACITY: usize = 10;

/// Milliseconds between captures: `1000 / fps`, rounded down.
pub fn frame_interval_ms(fps: u64) -> (ms: u64)
    requires
        fps > 0,
    ensures
        ms == 1000int / (fps as int),
{
    1000 / fps
}

/// A key press, as far as the cursor loop cares.
#[derive(Debug, Clone, Copy, PartialEq, Eq, Structural)]
pub enum Key {
    Up,
    Down,
    Left,
    Right,
    Enter,
    CtrlC,
    Other,
}

/// What the input loop does after a key press.
#[derive(Debug, Clone, Copy, PartialEq, Eq, Structural)]
pub enum InputAction {
    /// Nothing beyond the cursor update.
    Continue,
    /// Click at this terminal cell.
    Click(usize, usize),
    /// Stop the application.
    Shutdown,
}

/// The cursor's starting cell: the middle of the terminal.
pub fn initial_cursor(cols: usize, rows: usize) -> (pos: CursorPosition)
    ensures
        pos.x == cols / 2,
        pos.y == rows / 2,
{
    CursorPosition { x: cols / 2, y: rows / 2 }
}

/// Applies a key press: arrows move the cursor one cell, kept inside
/// `[0, cols) x [0, rows)`; Enter clicks where the cursor stands; Ctrl+C
/// shuts down.
pub fn handle_key(pos: &mut CursorPosition, key: Key, cols: usize, rows: usize) -> (action:
    InputAction)
    ensures
        key == Key::Up ==> *final(pos) == (CursorPosition {
            x: old(pos).x,
            y: if old(pos).y > 0 {
                (old(pos).y - 1) as usize
            } else {
                old(pos).y
            },
        }),
        key == Key::Down ==> *final(pos) == (CursorPosition {
            x: old(pos).x,
            y: if old(pos).y + 1 < rows {
                (old(pos).y + 1) as usize
            } else {
                old(pos).y
            },
        }),
        key == Key::Left ==> *final(pos) == (CursorPosition {
            x: if old(pos).x > 0 {
                (old(pos).x - 1) as usize
            } else {
                old(pos).x
            },
            y: old(pos).y,
        }),
        key == Key::Right ==> *final(pos) == (CursorPosition {
            x: if old(pos).x + 1 < cols {
                (old(pos).x + 1) as usize
            } else {
                old(pos).x
            },
            y: old(pos).y,
        }),
        key != Key::Up && key != Key::Down && key != Key::Left && key != Key::Right ==> *final(pos)
            == *old(pos),
        key == Key::Enter ==> action == InputAction::Click(old(pos).x, old(pos).y),
        key == Key::CtrlC ==> action == InputAction::Shutdown,
        key != Key::Enter && key != Key::CtrlC ==> action == InputAction::Continue,
{
    match key {
        Key::Up => {
            if pos.y > 0 {
                pos.y = pos.y - 1;
            }
            InputAction::Continue
        },
        Key::Down => {
            if rows > 0 && pos.y < rows - 1 {
                pos.y = pos.y + 1;
            }
            InputAction::Continue
        },
        Key::Left => {
            if pos.x > 0 {
                pos.x = pos.x - 1;
            }
            InputAction::Continue
        },
        Key::Right => {
            if cols > 0 && pos.x < cols - 1 {
                pos.x = pos.x + 1;
            }
            InputAction::Continue
        },
        Key::Enter => InputAction::Click(pos.x, pos.y),
        Key::CtrlC => InputAction::Shutdown,
        Key::Other => InputAction::Continue,
    }
}

/// Maps a terminal cell to viewport pixels: `(x * vw / cols, y * vh / rows)`.
pub fn viewport_point(x: usize, y: usize, cols: usize, rows: usize, vw: u32, vh: u32) -> (p: (
    u64,
    u64,
))
    requires
        cols > 0,
        rows > 0,
        x < cols,
        y < rows,
    ensures
        p.0 == (x as int) * (vw as int) / (cols as int),
        p.1 == (y as int) * (vh as int) / (rows as int),
        p.0 < vw || vw == 0,
        p.1 < vh || vh == 0,
{
    assert(x * vw <= 0xFFFF_FFFF_FFFF_FFFFint * 4294967295) by (nonlinear_arith)
        requires
            x <= 0xFFFF_FFFF_FFFF_FFFFint,
            vw <= 4294967295,
    ;
    assert(y * vh <= 0xFFFF_FFFF_FFFF_FFFFint * 4294967295) by (nonlinear_arith)
        requires
            y <= 0xFFFF_FFFF_FFFF_FFFFint,
            vh <= 4294967295,
    ;
    let px = (x as u128) * (vw as u128) / (cols as u128);
    let py = (y as u128) * (vh as u128) / (rows as u128);
    assert((x as int) * (vw as int) / (cols as int) <= vw) by (nonlinear_arith)
        requires
            x < cols,
            cols > 0,
            vw >= 0,
    ;
    assert((y as int) * (vh as int) / (rows as int) <= vh) by (nonlinear_arith)
        requires
            y < rows,
            rows > 0,
            vh >= 0,
    ;
    assert((x as int) * (vw as int) / (cols as int) < vw || vw == 0) by (nonlinear_arith)
        requires
            x < cols,
            cols > 0,
            vw >= 0,
    ;
    assert((y as int) * (vh as int) / (rows as int) < vh || vh == 0) by (nonlinear_arith)
        requires
            y < rows,
            rows > 0,
            vh >= 0,
    ;
    assert(px == (x as int) * (vw as int) / (cols as int));
    assert(py == (y as int) * (vh as int) / (rows as int));
    (px as u64, py as u64)
}

/// `s` begins with `prefix`.
pub open spec fn starts_with(s: Seq<u8>, prefix: Seq<u8>) -> bool {
    prefix.len() <= s.len() && s.subrange(0, prefix.len() as int) == prefix
}

/// ASCII `http://`.
pub open spec fn http_prefix() -> Seq<u8> {
    seq![104u8, 116u8, 116u8, 112u8, 58u8, 47u8, 47u8]
}

/// ASCII `https://`.
pub open spec fn https_prefix() -> Seq<u8> {
    seq![104u8, 116u8, 116u8, 112u8, 115u8, 58u8, 47u8, 47u8]
}

fn has_prefix(s: &[u8], prefix: &Vec<u8>) -> (r: bool)
    ensures
        r == starts_with(s@, prefix@),
{
    if prefix.len() > s.len() {
        return false;
    }
    let mut i: usize = 0;
    while i < prefix.len()
        invariant
            prefix@.len() <= s@.len(),
            i <= prefix@.len(),
            forall|j: int| 0 <= j < i ==> s@[j] == prefix@[j],
        decreases prefix@.len() - i,
    {
        if s[i] != prefix[i] {
            assert(s@.subrange(0, prefix@.len() as int)[i as int] != prefix@[i as int]);
            return false;
        }
        i = i + 1;
    }
    assert(s@.subrange(0, prefix@.len() as int) =~= prefix@);
    true
}

fn https_bytes() -> (r: Vec<u8>)
    ensures
        r@ == https_prefix(),
{
    let r: Vec<u8> = vec![104, 116, 116, 112, 115, 58, 47, 47];
    assert(r@ =~= https_prefix());
    r
}

/// A URL as typed, with `https://` put in front unless it already starts
/// with `http://` or `https://`.
pub fn normalize_url(input: &[u8]) -> (url: Vec<u8>)
    ensures
        starts_with(input@, http_prefix()) || starts_with(input@, https_prefix()) ==> url@
            == input@,
        !(starts_with(input@, http_prefix()) || starts_with(input@, https_prefix())) ==> url@
            == https_prefix() + input@,
{
    let https = https_bytes();
    let http: Vec<u8> = vec![104, 116, 116, 112, 58, 47, 47];
    assert(http@ =~= http_prefix());
    let mut url: Vec<u8> = Vec::new();
    if !(has_prefix(input, &http) || has_prefix(input, &https)) {
        url = https;
    }
    let ghost start = url@;
    let mut i: usize = 0;
    while i < input.len()
        invariant
            i <= input@.len(),
            url@ == start + input@.subrange(0, i as int),
        decreases input@.len() - i,
    {
        url.push(input[i]);
        i = i + 1;
        assert(input@.subrange(0, i as int) =~= input@.subrange(0, i - 1).push(input@[i - 1]));
    }
    assert(input@.subrange(0, input@.len() as int) =~= input@);
    url
}

} // verus!
