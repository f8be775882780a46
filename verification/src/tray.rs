//! The tray icon: its menu, what a click on it does, and its picture.

use vstd::prelude::*;

use crate::text::same_text;

verus! {

/// What the tray asks of the window.
#[derive(Clone, Copy, Debug, PartialEq, Eq, Structural)]
pub struct TraySignals {
    pub show_window: bool,
    pub quit: bool,
}

impl Default for TraySignals {
    fn default() -> (r: Self)
        ensures
            !r.show_window && !r.quit,
    {
        TraySignals { show_window: false, quit: false }
    }
}

impl TraySignals {
    /// Nothing asked.
    pub fn new() -> (r: Self)
        ensures
            !r.show_window && !r.quit,
    {
        TraySignals { show_window: false, quit: false }
    }

    /// Hands out what was asked, once: whether to focus the window and whether
    /// to close it.
    pub fn take(&mut self) -> (r: (bool, bool))
        ensures
            r == (old(self).show_window, old(self).quit),
            !final(self).show_window && !final(self).quit,
    {
        let r = (self.show_window, self.quit);
        self.show_window = false;
        self.quit = false;
        r
    }
}

/// Whether playback is paused, as far as the tray knows.
#[derive(Clone, Copy, Debug, PartialEq, Eq, Structural)]
pub struct PausedHint {
    pub paused: bool,
}

/// Notes whether playback is paused.
pub fn set_paused_hint(hint: &mut PausedHint, paused: bool)
    ensures
        final(hint).paused == paused,
{
    hint.paused = paused;
}

/// Whether playback is paused, as noted last.
pub fn paused_now(hint: &PausedHint) -> (r: bool)
    ensures
        r == hint.paused,
{
    hint.paused
}

/// An entry of the tray menu.
#[derive(Clone, Copy, Debug)]
pub enum MenuEntry {
    Item { id: &'static str, label: &'static str },
    Separator,
}

/// `e` is the item with an id and a label.
pub open spec fn is_item(e: MenuEntry, id: Seq<char>, label: Seq<char>) -> bool {
    e matches MenuEntry::Item { id: i, label: l } && i@ == id && l@ == label
}

/// The menu of the tray icon.
pub fn build_menu(paused: bool) -> (r: Vec<MenuEntry>)
    ensures
        r@.len() == 6,
        is_item(r@[0], "pause"@, if paused {
            "Resume"@
        } else {
            "Pause"@
        }),
        is_item(r@[1], "skip"@, "Skip"@),
        r@[2] is Separator,
        is_item(r@[3], "show"@, "Show window"@),
        r@[4] is Separator,
        is_item(r@[5], "quit"@, "Quit"@),
{
    let pause_label: &'static str = if paused {
        "Resume"
    } else {
        "Pause"
    };
    let mut out: Vec<MenuEntry> = Vec::new();
    out.push(MenuEntry::Item { id: "pause", label: pause_label });
    out.push(MenuEntry::Item { id: "skip", label: "Skip" });
    out.push(MenuEntry::Separator);
    out.push(MenuEntry::Item { id: "show", label: "Show window" });
    out.push(MenuEntry::Separator);
    out.push(MenuEntry::Item { id: "quit", label: "Quit" });
    out
}

/// Handles a click on the item `id`: returns the path to post to, if any, and
/// notes what is asked of the window.
pub fn menu_event(id: &str, hint: &PausedHint, signals: &mut TraySignals) -> (r: Option<
    &'static str,
>)
    ensures
        match r {
            Some(path) => (id@ == "pause"@ && path@ == (if hint.paused {
                "/resume"@
            } else {
                "/pause"@
            })) || (id@ == "skip"@ && path@ == "/skip"@),
            None => id@ != "pause"@ && id@ != "skip"@,
        },
        final(signals).show_window == (old(signals).show_window || id@ == "show"@),
        final(signals).quit == (old(signals).quit || id@ == "quit"@),
{
    proof {
        reveal_strlit("pause");
        reveal_strlit("skip");
        reveal_strlit("show");
        reveal_strlit("quit");
        assert("pause"@.len() == 5);
        assert("skip"@[1] == 'k' && "show"@[1] == 'h' && "quit"@[1] == 'u');
    }
    if same_text(id, "pause") {
        return if paused_now(hint) {
            Some("/resume")
        } else {
            Some("/pause")
        };
    }
    if same_text(id, "skip") {
        return Some("/skip");
    }
    if same_text(id, "show") {
        signals.show_window = true;
    } else if same_text(id, "quit") {
        signals.quit = true;
    }
    None
}

/// The pixel in column `x` and row `y` belongs to the triangle.
pub open spec fn in_triangle(x: int, y: int) -> bool {
    let cx = x - 7;
    let cy = y - 8;
    -cy <= cx <= cy && -7 <= cy <= 6
}

/// The bytes of a pixel of the icon: red, green, blue and opacity.
pub open spec fn icon_pixel(x: int, y: int) -> Seq<u8> {
    if in_triangle(x, y) {
        seq![108u8, 178, 255, 255]
    } else {
        seq![15u8, 17, 21, 255]
    }
}

/// The icon, sixteen pixels wide and high, row by row: a bright triangle on a
/// dark ground.
pub fn synth_icon() -> (r: Vec<u8>)
    ensures
        r@.len() == 16 * 16 * 4,
        forall|x: int, y: int, c: int|
            0 <= x < 16 && 0 <= y < 16 && 0 <= c < 4 ==> r@[#[trigger] byte_at(x, y, c)]
                == icon_pixel(x, y)[c],
{
    let mut buf: Vec<u8> = Vec::new();
    let mut y: i64 = 0;
    while y < 16
        invariant
            0 <= y <= 16,
            buf@.len() == y * 64,
            forall|x: int, yy: int, c: int|
                0 <= x < 16 && 0 <= yy < y && 0 <= c < 4 ==> buf@[#[trigger] byte_at(x, yy, c)]
                    == icon_pixel(x, yy)[c],
        decreases 16 - y,
    {
        let mut x: i64 = 0;
        while x < 16
            invariant
                0 <= y < 16,
                0 <= x <= 16,
                buf@.len() == y * 64 + x * 4,
                forall|xx: int, yy: int, c: int|
                    0 <= xx < 16 && 0 <= yy && (yy < y || (yy == y && xx < x)) && 0 <= c < 4
                        ==> buf@[#[trigger] byte_at(xx, yy, c)] == icon_pixel(xx, yy)[c],
            decreases 16 - x,
        {
            let cx: i64 = x - 7;
            let cy: i64 = y - 8;
            let inside: bool = -cy <= cx && cx <= cy && cy >= -7 && cy <= 6;
            let ghost before = buf@;
            if inside {
                buf.push(108);
                buf.push(178);
                buf.push(255);
            } else {
                buf.push(15);
                buf.push(17);
                buf.push(21);
            }
            buf.push(255);
            proof {
                assert(forall|k: int| 0 <= k < before.len() ==> buf@[k] == before[k]);
            }
            x += 1;
        }
        y += 1;
    }
    buf
}

/// Where a byte of the icon lies.
pub open spec fn byte_at(x: int, y: int, c: int) -> int {
    (y * 16 + x) * 4 + c
}

/// The triangle of the icon: it grows by one pixel to either side from the
/// eighth row to the fourteenth, and nothing of it lies above or below. It is
/// blue on nearly black, and the icon is opaque everywhere.
pub proof fn lemma_icon(x: int, y: int)
    requires
        0 <= x < 16,
        0 <= y < 16,
    ensures
        8 <= y <= 14 && 15 - y <= x <= y - 1 ==> icon_pixel(x, y) == seq![108u8, 178, 255, 255],
        y < 8 || y > 14 || x < 15 - y || x > y - 1 ==> icon_pixel(x, y) == seq![15u8, 17, 21, 255],
{
}

/// The icon is stored row by row from the top left, four bytes for a pixel: a
/// step to the right is four bytes on, and a step down sixty-four.
pub proof fn lemma_icon_bytes(x: int, y: int, c: int)
    ensures
        byte_at(0, 0, 0) == 0,
        byte_at(x + 1, y, c) == byte_at(x, y, c) + 4,
        byte_at(x, y + 1, c) == byte_at(x, y, c) + 64,
        byte_at(x, y, c + 1) == byte_at(x, y, c) + 1,
{
}

} // verus!
